//! Where the broker serves its pacts.

use crate::broker_api::client::broker_client::BrokerClient;
use crate::broker_api::client::error::ClientError;
use crate::urls::joined_url;
use vstd::prelude::*;
use vstd::string::*;

verus! {

/// The route of the list of latest pacts.
pub open spec fn latest_route() -> Seq<char> {
    "/pacts/latest"@
}

/// The route of the pact between `provider` and `consumer`, in `version` or,
/// where none is given, in its latest version.
pub open spec fn contract_route(
    provider: Seq<char>,
    consumer: Seq<char>,
    version: Option<Seq<char>>,
) -> Seq<char> {
    "/pacts/provider/"@ + provider + "/consumer/"@ + consumer + "/"@ + match version {
        Some(version) => version,
        None => "latest"@,
    }
}

pub struct PactsHandler<'client> {
    client: &'client BrokerClient,
}

impl<'client> PactsHandler<'client> {
    /// The client whose base URL the routes are resolved against.
    pub closed spec fn client(&self) -> &BrokerClient {
        self.client
    }

    /// Creates a new [`PactsHandler`].
    pub(crate) fn new(client: &'client BrokerClient) -> (handler: Self)
        ensures
            handler.client() == client,
    {
        Self { client }
    }

    /// The route of the list of latest pacts.
    pub fn route_of_latest() -> (route: &'static str)
        ensures
            route@ == latest_route(),
    {
        "/pacts/latest"
    }

    /// The route of the pact between `provider` and `consumer`.
    pub fn route_of_contract(provider: &str, consumer: &str, version: Option<&str>) -> (route:
        String)
        ensures
            route@ == contract_route(
                provider@,
                consumer@,
                match version {
                    Some(version) => Some(version@),
                    None => None,
                },
            ),
    {
        let version = match version {
            Some(version) => version,
            None => "latest",
        };
        "/pacts/provider/".to_owned().concat(provider).concat("/consumer/").concat(consumer).concat(
            "/",
        ).concat(version)
    }

    /// The address of the list of latest pacts.
    pub fn latest_url(&self) -> (url: Result<String, ClientError>)
        ensures
            match url {
                Ok(url) => joined_url(self.client().base_url@, latest_route()) == Some(url@),
                Err(error) => joined_url(self.client().base_url@, latest_route()) is None
                    && error is Url,
            },
    {
        self.client.absolute_url(Self::route_of_latest())
    }

    /// The address of the pact between `provider` and `consumer`.
    pub fn contract_url(&self, provider: &str, consumer: &str, version: Option<&str>) -> (url:
        Result<String, ClientError>)
        ensures
            ({
                let route = contract_route(
                    provider@,
                    consumer@,
                    match version {
                        Some(version) => Some(version@),
                        None => None,
                    },
                );
                match url {
                    Ok(url) => joined_url(self.client().base_url@, route) == Some(url@),
                    Err(error) => joined_url(self.client().base_url@, route) is None
                        && error is Url,
                }
            }),
    {
        let route = Self::route_of_contract(provider, consumer, version);
        self.client.absolute_url(route.as_str())
    }
}

} // verus!
