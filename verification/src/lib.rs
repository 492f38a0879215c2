//! Fetch planning and graph aggregation for a Pact broker's contract network.
//!
//! The crate decides which detail resources to fetch, how a request is retried
//! when the broker answers `401 Unauthorized`, how many fetches may be in
//! flight at once, and how the fetched contracts fold into a graph of
//! pacticants and interactions. Network and file access are left to the
//! caller, which performs the actions this crate decides on.

pub mod broker_api;
pub mod broker_models;
pub mod broker_service;
pub mod chart;
pub mod cli;
pub mod client;
pub mod models;
pub mod reporter;
pub mod text;
pub mod urls;

pub use cli::{Cli, GraphChoice};
