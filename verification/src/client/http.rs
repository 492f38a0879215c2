//! Which detail resources a list of pacts leads to.

use crate::broker_api::client::api::pacts::{latest_route, PactsHandler};
use crate::broker_api::client::error::ClientError;
use crate::broker_models::pacts::{Pact, Pacts};
use crate::urls::{join, joined_url, parse, parsed_url};
use vstd::prelude::*;

verus! {

/// The number of detail requests that may be outstanding at the same time.
pub const BUFFER_SIZE: usize = crate::broker_api::client::batch::MAX_IN_FLIGHT;

/// The address a pact links to as itself: that of its first `self` link, if
/// it has one.
pub open spec fn self_href(pact: Pact) -> Option<Seq<char>> {
    if pact.links.links_self@.len() > 0 {
        Some(pact.links.links_self@[0].href@)
    } else {
        None
    }
}

/// The URL of a pact's detail resource: its own address as the `url` crate
/// reads it. A pact without a `self` link, or with one that is no URL, has
/// none.
pub open spec fn detail_url(pact: Pact) -> Option<Seq<char>> {
    match self_href(pact) {
        Some(href) => parsed_url(href),
        None => None,
    }
}

/// The views of a run of URLs.
pub open spec fn url_views(urls: Seq<String>) -> Seq<Seq<char>> {
    urls.map_values(|url: String| url@)
}

/// The broker's URL as the `url` crate reads it, or the error where the text
/// is no URL.
pub fn broker_url(url: &str) -> (parsed: Result<String, ClientError>)
    ensures
        match parsed {
            Ok(parsed) => parsed_url(url@) == Some(parsed@),
            Err(error) => parsed_url(url@) is None && error is Url,
        },
{
    match parse(url) {
        Ok(parsed) => Ok(parsed),
        Err(source) => Err(ClientError::Url { source }),
    }
}

/// The address of the list of latest pacts of the broker at `broker`, or the
/// error where there is none.
pub fn pacts_url(broker: &str) -> (url: Result<String, ClientError>)
    ensures
        match url {
            Ok(url) => joined_url(broker@, latest_route()) == Some(url@),
            Err(error) => joined_url(broker@, latest_route()) is None && error is Url,
        },
{
    match join(broker, PactsHandler::route_of_latest()) {
        Ok(url) => Ok(url),
        Err(source) => Err(ClientError::Url { source }),
    }
}

/// The address of the first `self` link of a pact, if it has one.
pub fn first_self_link(pact: &Pact) -> (href: Option<&String>)
    ensures
        match href {
            Some(href) => self_href(*pact) == Some(href@),
            None => self_href(*pact) is None,
        },
{
    if pact.links.links_self.len() > 0 {
        Some(&pact.links.links_self[0].href)
    } else {
        None
    }
}

/// The URLs of the detail resources of the listed pacts, in list order. A
/// pact without a usable link is left out.
pub fn contracts_url_from(pacts_response: &Pacts) -> (urls: Vec<String>)
    ensures
        url_views(urls@) == pacts_response.pacts@.filter_map(|pact: Pact| detail_url(pact)),
{
    let ghost listed = pacts_response.pacts@;
    let ghost url_of = |pact: Pact| detail_url(pact);
    let mut urls: Vec<String> = Vec::new();
    let mut i: usize = 0;
    proof {
        assert(listed.take(0) =~= Seq::<Pact>::empty());
        assert(url_views(urls@) =~= Seq::<Seq<char>>::empty());
    }
    while i < pacts_response.pacts.len()
        invariant
            i <= pacts_response.pacts.len(),
            listed == pacts_response.pacts@,
            url_of == |pact: Pact| detail_url(pact),
            url_views(urls@) == listed.take(i as int).filter_map(url_of),
        decreases pacts_response.pacts.len() - i,
    {
        proof {
            listed.lemma_filter_map_take_succ(url_of, i as int);
        }
        match first_self_link(&pacts_response.pacts[i]) {
            Some(href) => {
                match parse(href.as_str()) {
                    Ok(url) => {
                        proof {
                            assert(url_views(urls@.push(url)) =~= url_views(urls@) + seq![url@]);
                        }
                        urls.push(url);
                    },
                    Err(_) => {
                        proof {
                            assert(url_views(urls@) + Seq::<Seq<char>>::empty() =~= url_views(
                                urls@,
                            ));
                        }
                    },
                }
            },
            None => {
                proof {
                    assert(url_views(urls@) + Seq::<Seq<char>>::empty() =~= url_views(urls@));
                }
            },
        }
        i += 1;
    }
    proof {
        assert(listed.take(i as int) =~= listed);
    }
    urls
}

} // verus!
