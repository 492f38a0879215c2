//! Reading the broker's list of pacts.

pub mod dto;
pub mod http;
