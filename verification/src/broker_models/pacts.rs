//! The list resource: the latest pact of every consumer and provider pair.

use vstd::prelude::*;

verus! {

#[derive(Debug)]
pub struct Pacts {
    pub pacts: Vec<Pact>,
    pub links: ResponseLinks,
}

#[derive(Debug)]
pub struct ResponseLinks {
    pub links_self: Link,
    pub pb_pacts: Vec<PbPact>,
    pub curies: Vec<Cury>,
}

#[derive(Debug)]
pub struct Cury {
    pub name: String,
    pub href: String,
    pub templated: bool,
}

#[derive(Debug)]
pub struct Link {
    pub href: String,
    pub title: Option<String>,
    pub name: Option<String>,
}

#[derive(Debug)]
pub struct PbPact {
    pub href: String,
    pub title: String,
}

#[derive(Debug)]
pub struct Pact {
    pub created_at: String,
    pub embedded: PactEmbedded,
    pub links: PactLinks,
}

#[derive(Debug)]
pub struct PactEmbedded {
    pub consumer: Consumer,
    pub provider: Provider,
}

#[derive(Debug)]
pub struct Consumer {
    pub name: String,
    pub embedded: ConsumerEmbedded,
    pub links: ConsumerLinks,
}

#[derive(Debug)]
pub struct ConsumerEmbedded {
    pub version: Version,
}

#[derive(Debug)]
pub struct Version {
    pub number: String,
    pub links: VersionLinks,
}

#[derive(Debug)]
pub struct VersionLinks {
    pub links_self: Link,
}

#[derive(Debug)]
pub struct ConsumerLinks {
    pub links_self: Link,
}

#[derive(Debug)]
pub struct Provider {
    pub name: String,
    pub links: ConsumerLinks,
}

#[derive(Debug)]
pub struct PactLinks {
    pub links_self: Vec<Link>,
}

} // verus!
