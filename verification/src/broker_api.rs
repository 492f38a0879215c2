//! Talking to a Pact broker: what to ask for, and what to do with the answer.

pub mod client;
