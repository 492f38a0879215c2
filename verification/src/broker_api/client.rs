//! The broker client: its configuration, the addresses it asks for, its
//! retry policy and its admission control for batches of requests.

pub mod api;
pub mod auth;
pub mod batch;
pub mod broker_client;
pub mod builder;
pub mod error;
pub mod retry;

pub use auth::Auth;
pub use broker_client::BrokerClient;
pub use builder::Builder;
pub use error::ClientError;
