//! The list of pacts, reduced to the names of the two sides.

use vstd::prelude::*;

verus! {

#[derive(Debug)]
pub struct Pact {
    pub created_at: String,
    pub embedded: Embedded,
}

#[derive(Debug)]
pub struct Embedded {
    pub consumer: Service,
    pub provider: Service,
}

#[derive(Debug)]
pub struct Service {
    pub name: String,
}

#[derive(Debug)]
pub struct PactsResponse {
    pub pacts: Vec<Pact>,
}

} // verus!
