//! The Pact broker API client.

use crate::broker_api::client::api::pacts::PactsHandler;
use crate::broker_api::client::auth::{Auth, AuthView};
use crate::broker_api::client::builder::{header_views, valid_header_value};
use crate::broker_api::client::error::ClientError;
use crate::broker_api::client::retry::{sends_again, Execution, Step};
use crate::urls::{join, joined_url};
use vstd::prelude::*;

verus! {

/// How the client names itself to the broker.
pub const USER_AGENT: &'static str = "pact-broker-api/rust";

/// What a [`BrokerClient`] stands for.
pub struct BrokerClientView {
    pub base_url: Seq<char>,
    pub auth: AuthView,
    pub authorization: Option<Seq<char>>,
    pub extra_headers: Seq<(reqwest::header::HeaderName, Seq<char>)>,
    pub timeout_ms: u64,
}

impl BrokerClientView {
    /// Whether every header the client sends has a value that can be one.
    pub open spec fn sendable(self) -> bool {
        &&& self.authorization matches Some(value) ==> valid_header_value(value)
        &&& forall|i: int|
            0 <= i < self.extra_headers.len() ==> valid_header_value(
                (#[trigger] self.extra_headers[i]).1,
            )
    }
}

/// The Pact broker API client: where the broker is, how requests are
/// authenticated, and what every request carries.
#[derive(Debug)]
pub struct BrokerClient {
    /// The URL that routes are resolved against.
    pub base_url: String,
    /// The credentials applied to each attempt of a request.
    pub auth: Auth,
    /// The value of the `Authorization` header sent with every request, if
    /// any. It goes before the extra headers.
    pub authorization: Option<String>,
    /// Further headers sent with every request.
    pub extra_headers: Vec<(reqwest::header::HeaderName, String)>,
    /// The time a request may take, in milliseconds.
    pub timeout_ms: u64,
}

impl View for BrokerClient {
    type V = BrokerClientView;

    open spec fn view(&self) -> BrokerClientView {
        BrokerClientView {
            base_url: self.base_url@,
            auth: self.auth@,
            authorization: match self.authorization {
                Some(value) => Some(value@),
                None => None,
            },
            extra_headers: header_views(self.extra_headers@),
            timeout_ms: self.timeout_ms,
        }
    }
}

/// # Pact Broker API Methods
impl BrokerClient {
    /// Create a new [`PactsHandler`].
    pub fn pacts(&self) -> (handler: PactsHandler<'_>)
        ensures
            handler.client() == self,
    {
        PactsHandler::new(self)
    }
}

/// # Request execution
impl BrokerClient {
    /// Decides what follows an attempt that was answered with `status`:
    /// another attempt with this client's credentials applied afresh, or the
    /// end of the request. `status` is `None` where the attempt failed
    /// without an HTTP status.
    pub fn after_attempt(&self, execution: &mut Execution, status: Option<u16>) -> (step: Step)
        ensures
            step == Step::Retry <==> sends_again(self.auth@, old(execution).retries_made(), status),
            final(execution).retries_made() == if step == Step::Retry {
                old(execution).retries_made() + 1
            } else {
                old(execution).retries_made()
            },
    {
        execution.after_attempt(&self.auth, status)
    }
}

/// # Utility Methods
impl BrokerClient {
    /// Returns an absolute url version of `url` using the `base_url`
    pub fn absolute_url(&self, url: &str) -> (absolute: Result<String, ClientError>)
        ensures
            match absolute {
                Ok(absolute) => joined_url(self.base_url@, url@) == Some(absolute@),
                Err(error) => joined_url(self.base_url@, url@) is None && error is Url,
            },
    {
        match join(self.base_url.as_str(), url) {
            Ok(absolute) => Ok(absolute),
            Err(source) => Err(ClientError::Url { source }),
        }
    }
}

} // verus!
