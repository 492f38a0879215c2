//! The resources a Pact broker serves, as decoded values.

pub mod contract;
pub mod pacts;
