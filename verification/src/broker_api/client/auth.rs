//! How the client identifies itself to the broker.

use vstd::prelude::*;

verus! {

/// Authentication used in `BrokerClient`.
#[derive(Debug, Clone, PartialEq)]
pub enum Auth {
    /// No Authentication.
    NoAuth,
    /// Basic Auth HTTP Header to be set to provide authentication
    Basic { username: String, password: String },
    /// Set the HTTP Header authorization
    Token { token: String },
}

impl Default for Auth {
    fn default() -> (auth: Self)
        ensures
            auth == Auth::NoAuth,
    {
        Auth::NoAuth
    }
}

/// What an [`Auth`] stands for.
pub enum AuthView {
    NoAuth,
    Basic { username: Seq<char>, password: Seq<char> },
    Token { token: Seq<char> },
}

impl View for Auth {
    type V = AuthView;

    open spec fn view(&self) -> AuthView {
        match *self {
            Auth::NoAuth => AuthView::NoAuth,
            Auth::Basic { username, password } => AuthView::Basic {
                username: username@,
                password: password@,
            },
            Auth::Token { token } => AuthView::Token { token: token@ },
        }
    }
}

} // verus!
