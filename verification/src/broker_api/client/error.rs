//! What can go wrong before a request is sent.

use vstd::prelude::*;

verus! {

/// The error `reqwest` reports.
#[verifier::external_type_specification]
#[verifier::external_body]
pub struct ExRequestError(reqwest::Error);

#[derive(Debug)]
#[allow(inconsistent_fields)]
pub enum ClientError {
    /// A route could not be resolved against the base URL.
    Url { source: url::ParseError },
    /// The HTTP client refused an address.
    Http { source: reqwest::Error },
}

} // verus!
