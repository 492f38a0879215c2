//! The command line's arguments and the client they ask for.

use crate::broker_api::client::auth::AuthView;
use crate::broker_api::client::builder::{request_url, Builder, BuilderView};
use crate::broker_api::client::error::ClientError;
use vstd::prelude::*;

verus! {

/// The layout of the report.
#[derive(Debug, Clone, Copy, PartialEq, Eq, Structural)]
pub enum GraphChoice {
    Edge,
    Directed,
}

#[derive(Debug)]
pub struct Cli {
    /// Pact broker URL
    pub url: String,
    /// Pact broker username
    pub username: Option<String>,
    /// Pact broker password
    pub password: Option<String>,
    /// Pact broker token
    pub token: Option<String>,
    /// Path of the output dir
    pub output: String,
    pub graph: GraphChoice,
    /// timeout of http request in milliseconds
    pub timeout: u16,
    /// list of service to exclude
    pub exclude: Option<Vec<String>>,
}

impl Cli {
    /// The credentials the arguments ask for: the token if one is given,
    /// else user name and password if both are given, else none.
    pub open spec fn credentials(&self) -> AuthView {
        match (self.token, self.username, self.password) {
            (Some(token), _, _) => AuthView::Token { token: token@ },
            (None, Some(username), Some(password)) => AuthView::Basic {
                username: username@,
                password: password@,
            },
            _ => AuthView::NoAuth,
        }
    }

    /// The configuration of the client the arguments ask for, or the error
    /// where the broker's URL is none.
    pub fn client_builder(&self) -> (builder: Result<Builder, ClientError>)
        ensures
            match builder {
                Ok(builder) => request_url(self.url@) is Some && builder@ == (BuilderView {
                    base_url: request_url(self.url@),
                    extra_headers: Seq::empty(),
                    timeout: Some(self.timeout as u64),
                    auth: self.credentials(),
                }),
                Err(error) => request_url(self.url@) is None && error is Http,
            },
    {
        let builder = match Builder::new().base_url(self.url.as_str()) {
            Ok(builder) => builder,
            Err(error) => {
                return Err(error);
            },
        };
        let mut builder = builder.with_timeout(self.timeout as u64);
        match (&self.username, &self.password) {
            (Some(username), Some(password)) => {
                builder = builder.basic_auth(username.as_str(), password.as_str());
            },
            _ => {},
        }
        match &self.token {
            Some(token) => {
                builder = builder.token(token.as_str());
            },
            None => {},
        }
        Ok(builder)
    }
}

} // verus!
