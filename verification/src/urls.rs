//! Parsing and resolving URLs with the `url` crate.
//!
//! A URL is kept as the text the `url` crate serialises it to.

use vstd::prelude::*;

verus! {

/// The error the `url` crate reports when a text is no URL.
#[verifier::external_type_specification]
#[verifier::external_body]
pub struct ExParseError(url::ParseError);

/// The serialisation of the URL that `url::Url::parse` reads from `text`, or
/// `None` where it reports an error.
pub uninterp spec fn parsed_url(text: Seq<char>) -> Option<Seq<char>>;

/// The serialisation of the URL that `url::Url::join` gives for `reference`
/// on the URL parsed from `base`, or `None` where parsing `base` or joining
/// reports an error.
pub uninterp spec fn joined_url(base: Seq<char>, reference: Seq<char>) -> Option<Seq<char>>;

/// Calls `url::Url::parse` and hands back the URL's serialisation. The
/// outcome depends on the text alone.
#[verifier::external_body]
pub(crate) fn parse(text: &str) -> (parsed: Result<String, url::ParseError>)
    ensures
        match parsed {
            Ok(url) => parsed_url(text@) == Some(url@),
            Err(_) => parsed_url(text@) is None,
        },
{
    url::Url::parse(text).map(String::from)
}

/// Calls `url::Url::join` on the URL that `base` parses to and hands back the
/// serialisation of the result. The outcome depends on the two texts alone.
#[verifier::external_body]
pub(crate) fn join(base: &str, reference: &str) -> (joined: Result<String, url::ParseError>)
    ensures
        match joined {
            Ok(url) => joined_url(base@, reference@) == Some(url@),
            Err(_) => joined_url(base@, reference@) is None,
        },
{
    url::Url::parse(base)?.join(reference).map(String::from)
}

} // verus!
