//! A contract reduced to the names of its two sides.

use crate::broker_models::contract::Record;
use crate::client::dto::{Pact, PactsResponse};
use vstd::prelude::*;

verus! {

/// The consumer and the provider of a pact, in this order.
#[derive(Debug)]
pub struct Contract(String, String);

impl View for Contract {
    type V = Record;

    closed spec fn view(&self) -> Record {
        Record { consumer: self.0@, provider: self.1@, calls: Seq::empty() }
    }
}

impl Contract {
    /// Creates a new [`Contract`].
    pub fn new(consumer: String, provider: String) -> (contract: Self)
        ensures
            contract@ == (Record { consumer: consumer@, provider: provider@, calls: Seq::empty() }),
    {
        Self(consumer, provider)
    }

    /// Returns a reference to the consumer of this [`Contract`].
    pub fn consumer(&self) -> (consumer: &str)
        ensures
            consumer@ == self@.consumer,
    {
        self.0.as_str()
    }

    /// Returns a reference to the provider of this [`Contract`].
    pub fn provider(&self) -> (provider: &str)
        ensures
            provider@ == self@.provider,
    {
        self.1.as_str()
    }
}

/// The record a listed pact stands for: its two sides, and no calls.
pub open spec fn record_of_pact(pact: Pact) -> Record {
    Record {
        consumer: pact.embedded.consumer.name@,
        provider: pact.embedded.provider.name@,
        calls: Seq::empty(),
    }
}

impl From<Pact> for Contract {
    /// The contract a listed pact stands for.
    fn from(pact: Pact) -> (contract: Self)
        ensures
            contract@ == record_of_pact(pact),
    {
        Self(pact.embedded.consumer.name, pact.embedded.provider.name)
    }
}

impl vstd::std_specs::convert::FromSpecImpl<Pact> for Contract {
    open spec fn obeys_from_spec() -> bool {
        true
    }

    closed spec fn from_spec(pact: Pact) -> Self {
        Contract(pact.embedded.consumer.name, pact.embedded.provider.name)
    }
}

pub type Contracts = Vec<Contract>;

/// The records a run of contracts stands for.
pub open spec fn contract_records(contracts: Seq<Contract>) -> Seq<Record> {
    contracts.map_values(|contract: Contract| contract@)
}

impl From<PactsResponse> for Contracts {
    /// The contracts the listed pacts stand for, one per pact, in list order.
    fn from(data: PactsResponse) -> (contracts: Self)
        ensures
            contract_records(contracts@) == data.pacts@.map_values(
                |pact: Pact| record_of_pact(pact),
            ),
    {
        let ghost listed = data.pacts@;
        let mut contracts: Vec<Contract> = Vec::new();
        for pact in pacts: data.pacts
            invariant
                pacts.seq() == listed,
                contracts@.len() == pacts.index(),
                forall|k: int|
                    0 <= k < contracts@.len() ==> (#[trigger] contracts@[k])@ == record_of_pact(
                        listed[k],
                    ),
        {
            contracts.push(Contract::from(pact));
        }
        proof {
            assert(contract_records(contracts@) =~= listed.map_values(
                |pact: Pact| record_of_pact(pact),
            ));
        }
        contracts
    }
}

/// Of a vector only the view is known, so no vector-valued spec function can
/// say what `from` returns: `from` states it in its own `ensures`.
impl vstd::std_specs::convert::FromSpecImpl<PactsResponse> for Contracts {
    open spec fn obeys_from_spec() -> bool {
        false
    }

    open spec fn from_spec(data: PactsResponse) -> Self {
        arbitrary()
    }
}

} // verus!
