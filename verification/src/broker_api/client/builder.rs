//! Configuring a `BrokerClient`.

use crate::broker_api::client::auth::{Auth, AuthView};
use crate::broker_api::client::broker_client::{BrokerClient, BrokerClientView};
use crate::broker_api::client::error::ClientError;
use vstd::prelude::*;
use vstd::string::*;

verus! {

/// The name of an HTTP header, as `reqwest` holds it.
#[verifier::external_type_specification]
#[verifier::external_body]
pub struct ExHeaderName(reqwest::header::HeaderName);

/// The timeout of a request, in milliseconds, where none is configured.
pub const DEFAULT_TIMEOUT_MS: u64 = 3000;

/// The serialisation of the URL that `reqwest` makes of `text` for a request,
/// or `None` where it reports an error.
pub uninterp spec fn request_url(text: Seq<char>) -> Option<Seq<char>>;

/// Calls `into_url`, the method behind `reqwest::IntoUrl`, and hands back the
/// serialisation of the URL it returns. The outcome depends on the text
/// alone.
#[verifier::external_body]
fn into_url<U: reqwest::IntoUrl + View<V = Seq<char>>>(text: U) -> (url: Result<
    String,
    reqwest::Error,
>)
    ensures
        match url {
            Ok(url) => request_url(text@) == Some(url@),
            Err(_) => request_url(text@) is None,
        },
{
    text.into_url().map(String::from)
}

/// Whether a character may stand in the value of a header: a tab, or any
/// character from the space on but for the delete character.
pub open spec fn header_char(c: char) -> bool {
    c == '\t' || (c as u32 >= 32 && c as u32 != 127)
}

/// Whether a text can be the value of a header.
pub open spec fn valid_header_value(value: Seq<char>) -> bool {
    forall|i: int| 0 <= i < value.len() ==> header_char(#[trigger] value[i])
}

/// Calls `reqwest::header::HeaderValue::from_str` and tells whether it took
/// the text. It refuses a text exactly when one of its bytes is a control
/// character other than the tab; the bytes of a character beyond ASCII are
/// none of these.
#[verifier::external_body]
fn header_value_ok(value: &str) -> (ok: bool)
    ensures
        ok == valid_header_value(value@),
{
    reqwest::header::HeaderValue::from_str(value).is_ok()
}

/// What a [`Builder`] stands for.
pub struct BuilderView {
    pub base_url: Option<Seq<char>>,
    pub extra_headers: Seq<(reqwest::header::HeaderName, Seq<char>)>,
    pub timeout: Option<u64>,
    pub auth: AuthView,
}

impl BuilderView {
    /// Whether a client can be made of this configuration: the base URL is
    /// set, and every header the client is to send has a value that can be
    /// one.
    pub open spec fn can_build(self) -> bool {
        &&& self.base_url is Some
        &&& forall|i: int|
            0 <= i < self.extra_headers.len() ==> valid_header_value(
                (#[trigger] self.extra_headers[i]).1,
            )
        &&& self.auth matches AuthView::Token { token } ==> valid_header_value(token)
    }

    /// The client this configuration makes. A token becomes the
    /// `Authorization` header of every request and leaves nothing to apply
    /// per request.
    pub open spec fn client(self) -> BrokerClientView {
        BrokerClientView {
            base_url: self.base_url.unwrap(),
            auth: match self.auth {
                AuthView::Token { .. } => AuthView::NoAuth,
                other => other,
            },
            authorization: match self.auth {
                AuthView::Token { token } => Some(bearer(token)),
                _ => None,
            },
            extra_headers: self.extra_headers,
            timeout_ms: match self.timeout {
                Some(timeout) => timeout,
                None => DEFAULT_TIMEOUT_MS,
            },
        }
    }
}

/// The value of the `Authorization` header that carries `token`.
pub open spec fn bearer(token: Seq<char>) -> Seq<char> {
    seq!['B', 'e', 'a', 'r', 'e', 'r', ' '] + token
}

/// The views of a run of headers.
pub open spec fn header_views(headers: Seq<(reqwest::header::HeaderName, String)>) -> Seq<
    (reqwest::header::HeaderName, Seq<char>),
> {
    headers.map_values(|header: (reqwest::header::HeaderName, String)| (header.0, header.1@))
}

/// A builder struct for `BrokerClient`, allowing you to configure the client.
pub struct Builder {
    base_url: Option<String>,
    extra_headers: Vec<(reqwest::header::HeaderName, String)>,
    timeout: Option<u64>,
    auth: Auth,
}

impl View for Builder {
    type V = BuilderView;

    closed spec fn view(&self) -> BuilderView {
        BuilderView {
            base_url: match self.base_url {
                Some(url) => Some(url@),
                None => None,
            },
            extra_headers: header_views(self.extra_headers@),
            timeout: self.timeout,
            auth: self.auth@,
        }
    }
}

impl Default for Builder {
    fn default() -> (builder: Self)
        ensures
            builder@ == (BuilderView {
                base_url: None,
                extra_headers: Seq::empty(),
                timeout: None,
                auth: AuthView::NoAuth,
            }),
    {
        let builder = Builder {
            base_url: None,
            extra_headers: Vec::new(),
            timeout: None,
            auth: Auth::NoAuth,
        };
        assert(header_views(builder.extra_headers@) =~= Seq::empty());
        builder
    }
}

impl Builder {
    pub fn new() -> (builder: Self)
        ensures
            builder@ == (BuilderView {
                base_url: None,
                extra_headers: Seq::empty(),
                timeout: None,
                auth: AuthView::NoAuth,
            }),
    {
        Self::default()
    }

    /// Authenticate as a Basic Auth
    /// with username and password.
    pub fn basic_auth(self, username: &str, password: &str) -> (builder: Self)
        ensures
            builder@ == (BuilderView {
                auth: AuthView::Basic { username: username@, password: password@ },
                ..self@
            }),
    {
        let mut builder = self;
        builder.auth = Auth::Basic { username: username.to_owned(), password: password.to_owned() };
        builder
    }

    /// Authenticate with a JWT token.
    pub fn token(self, token: &str) -> (builder: Self)
        ensures
            builder@ == (BuilderView { auth: AuthView::Token { token: token@ }, ..self@ }),
    {
        let mut builder = self;
        builder.auth = Auth::Token { token: token.to_owned() };
        builder
    }

    /// Set the base url for `BrokerClient`.
    pub fn base_url(self, base_url: &str) -> (builder: Result<Self, ClientError>)
        ensures
            match builder {
                Ok(builder) => request_url(base_url@) is Some && builder@ == (BuilderView {
                    base_url: request_url(base_url@),
                    ..self@
                }),
                Err(error) => request_url(base_url@) is None && error is Http,
            },
    {
        match into_url(base_url) {
            Ok(url) => {
                let mut builder = self;
                builder.base_url = Some(url);
                Ok(builder)
            },
            Err(source) => Err(ClientError::Http { source }),
        }
    }

    /// Add an additional header to include with every request.
    pub fn add_header(self, key: reqwest::header::HeaderName, value: String) -> (builder: Self)
        ensures
            builder@ == (BuilderView {
                extra_headers: self@.extra_headers.push((key, value@)),
                ..self@
            }),
    {
        let mut builder = self;
        let ghost before = builder.extra_headers@;
        builder.extra_headers.push((key, value));
        assert(header_views(builder.extra_headers@) =~= header_views(before).push((key, value@)));
        builder
    }

    /// Configure a timeout for each request, in milliseconds.
    pub fn with_timeout(self, timeout_ms: u64) -> (builder: Self)
        ensures
            builder@ == (BuilderView { timeout: Some(timeout_ms), ..self@ }),
    {
        let mut builder = self;
        builder.timeout = Some(timeout_ms);
        builder
    }

    /// Whether [`Builder::build`] can make a client of this configuration.
    pub fn can_build(&self) -> (ready: bool)
        ensures
            ready == self@.can_build(),
    {
        if self.base_url.is_none() {
            return false;
        }
        let mut i: usize = 0;
        while i < self.extra_headers.len()
            invariant
                i <= self.extra_headers.len(),
                forall|j: int|
                    0 <= j < i ==> valid_header_value((#[trigger] self@.extra_headers[j]).1),
            decreases self.extra_headers.len() - i,
        {
            if !header_value_ok(self.extra_headers[i].1.as_str()) {
                assert(self@.extra_headers[i as int].1 == self.extra_headers@[i as int].1@);
                return false;
            }
            assert(self@.extra_headers[i as int].1 == self.extra_headers@[i as int].1@);
            i += 1;
        }
        match &self.auth {
            Auth::Token { token } => header_value_ok(token.as_str()),
            _ => true,
        }
    }

    /// Create the `BrokerClient` instance.
    ///
    /// Nothing can fail once the configuration [can build](Self::can_build);
    /// the result is a `Result` for the callers' sake, who go on to make the
    /// HTTP client, which can fail.
    pub fn build(self) -> (client: Result<BrokerClient, ClientError>)
        requires
            self@.can_build(),
        ensures
            client matches Ok(client) && client@ == self@.client() && client@.sendable(),
    {
        let Builder { base_url, extra_headers, timeout, auth } = self;
        let (auth, authorization) = match auth {
            Auth::NoAuth => (Auth::NoAuth, None),
            Auth::Basic { username, password } => (Auth::Basic { username, password }, None),
            Auth::Token { token } => {
                proof {
                    reveal_strlit("Bearer ");
                    assert("Bearer "@ =~= seq!['B', 'e', 'a', 'r', 'e', 'r', ' ']);
                    lemma_bearer_valid(token@);
                }
                (Auth::NoAuth, Some("Bearer ".to_owned().concat(token.as_str())))
            },
        };
        let timeout_ms = match timeout {
            Some(timeout) => timeout,
            None => DEFAULT_TIMEOUT_MS,
        };
        Ok(BrokerClient { base_url: base_url.unwrap(), auth, authorization, extra_headers, timeout_ms })
    }
}

/// A token that can be a header value still can with `Bearer ` before it.
proof fn lemma_bearer_valid(token: Seq<char>)
    requires
        valid_header_value(token),
    ensures
        valid_header_value(bearer(token)),
{
    let value = bearer(token);
    assert forall|i: int| 0 <= i < value.len() implies header_char(#[trigger] value[i]) by {
        if i >= 7 {
            assert(value[i] == token[i - 7]);
        }
    }
}

} // verus!
