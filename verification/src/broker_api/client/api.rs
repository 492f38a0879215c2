//! The resources of the broker's API.

pub mod pacts;

pub use pacts::PactsHandler;
