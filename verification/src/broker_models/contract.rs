//! The detail resource of one pact: who consumes, who provides, and the
//! interactions recorded between the two.

use vstd::prelude::*;

verus! {

/// A JSON value of `serde_json`, carried through unread.
#[verifier::external_type_specification]
#[verifier::external_body]
pub struct ExJsonValue(serde_json::Value);

/// One recorded exchange, reduced to what the graph reads from it.
pub struct Call {
    pub method: Seq<char>,
    pub path: Seq<char>,
}

/// What a contract says about the network: the two pacticants and the calls
/// the consumer makes to the provider, in the order they were recorded.
pub struct Record {
    pub consumer: Seq<char>,
    pub provider: Seq<char>,
    pub calls: Seq<Call>,
}

#[derive(Clone, Debug)]
pub struct Contract {
    pub consumer: Pacticant,
    pub interactions: Option<Vec<Interaction>>,
    pub metadata: Metadata,
    pub provider: Pacticant,
    pub created_at: String,
    pub links: Links,
}

#[derive(Clone, Debug)]
pub struct Pacticant {
    pub name: String,
}

#[derive(Clone, Debug)]
pub struct Interaction {
    pub id: String,
    pub description: String,
    pub provider_states: Option<Vec<State>>,
    pub request: Request,
    pub response: Response,
}

#[derive(Clone, Debug)]
pub struct State {
    pub name: String,
}

#[derive(Clone, Debug)]
pub struct Request {
    pub method: String,
    pub path: String,
    pub query: Option<serde_json::Value>,
}

#[derive(Clone, Debug)]
pub struct Response {
    pub status: i16,
    pub headers: Option<serde_json::Value>,
    pub body: Option<serde_json::Value>,
}

#[derive(Clone, Debug)]
pub struct Links {
    pub links_self: Link,
    pub pb_consumer: Link,
    pub pb_consumer_version: Link,
    pub pb_provider: Link,
    pub pb_pact_version: Link,
    pub pb_latest_pact_version: Link,
    pub pb_all_pact_versions: Link,
    pub pb_latest_untagged_pact_version: Link,
    pub pb_latest_tagged_pact_version: Link,
    pub pb_previous_distinct: Link,
    pub pb_diff_previous_distinct: Link,
    pub pb_diff: Link,
    pub pb_pact_webhooks: Link,
    pub pb_consumer_webhooks: Link,
    pub pb_tag_prod_version: Link,
    pub pb_tag_version: Link,
    pub pb_publish_verification_results: Link,
    pub pb_latest_verification_results: Link,
    pub pb_triggered_webhooks: Link,
    pub pb_matrix_for_consumer_version: Link,
    pub curies: Vec<Cury>,
}

#[derive(Clone, Debug)]
pub struct Cury {
    pub name: String,
    pub href: String,
    pub templated: bool,
}

#[derive(Clone, Debug)]
pub struct Link {
    pub title: Option<String>,
    pub href: String,
    pub name: Option<String>,
    pub templated: Option<bool>,
}

#[derive(Clone, Debug)]
pub struct Metadata {
    pub pact_specification: Pact,
}

#[derive(Clone, Debug)]
pub struct Pact {
    pub version: String,
}

impl View for Interaction {
    type V = Call;

    open spec fn view(&self) -> Call {
        Call { method: self.request.method@, path: self.request.path@ }
    }
}

impl View for Contract {
    type V = Record;

    open spec fn view(&self) -> Record {
        Record {
            consumer: self.consumer.name@,
            provider: self.provider.name@,
            calls: match self.interactions {
                Some(interactions) => interactions@.map_values(|i: Interaction| i@),
                None => Seq::empty(),
            },
        }
    }
}

/// The records a slice of contracts stands for, one per contract, in order.
pub open spec fn records_of(contracts: Seq<Contract>) -> Seq<Record> {
    contracts.map_values(|c: Contract| c@)
}

} // verus!
