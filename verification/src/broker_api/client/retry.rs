//! The retry policy of a single request.
//!
//! A request is sent, and sent again while the broker answers
//! `401 Unauthorized`, the client holds credentials to apply afresh, and fewer
//! than [`MAX_RETRIES`] retries were made. Whatever answer ends the loop is
//! handed to the caller as it is.

use crate::broker_api::client::auth::{Auth, AuthView};
use vstd::prelude::*;

verus! {

/// How often one request is sent again.
pub const MAX_RETRIES: u32 = 3;

/// The HTTP status `401 Unauthorized`.
pub const UNAUTHORIZED: u16 = 401;

/// Whether a request sent with these credentials can be sent again: a copy
/// of the request is kept aside exactly when credentials are applied to it.
pub open spec fn keeps_copy(auth: AuthView) -> bool {
    !(auth is NoAuth)
}

/// Whether the request is sent again after an answer with `status` that came
/// when `retries` retries had been made. `status` is `None` where the attempt
/// failed without an HTTP status.
pub open spec fn sends_again(auth: AuthView, retries: nat, status: Option<u16>) -> bool {
    status == Some(UNAUTHORIZED) && keeps_copy(auth) && retries < MAX_RETRIES
}

/// The number of retries made when the loop ends, given that the attempt
/// after `n` retries is answered with `statuses[n]` and `retries` retries
/// were made so far. The answer handed to the caller is the one at that
/// index.
pub open spec fn settles_at(auth: AuthView, statuses: Seq<Option<u16>>, retries: nat) -> nat
    decreases MAX_RETRIES - retries,
{
    if retries < statuses.len() && sends_again(auth, retries, statuses[retries as int]) {
        settles_at(auth, statuses, retries + 1)
    } else {
        retries
    }
}

/// What to do with the answer to an attempt.
#[derive(Debug, Clone, Copy, PartialEq, Eq, Structural)]
pub enum Step {
    /// Send the request again, with the credentials applied afresh.
    Retry,
    /// Hand the answer to the caller.
    Return,
}

/// The progress of one request through the retry loop.
#[derive(Debug)]
pub struct Execution {
    retries: u32,
}

impl Execution {
    /// No request is sent again more than [`MAX_RETRIES`] times.
    #[verifier::type_invariant]
    spec fn within_bound(&self) -> bool {
        self.retries <= MAX_RETRIES
    }

    /// The number of retries made so far.
    pub closed spec fn retries_made(&self) -> nat {
        self.retries as nat
    }

    /// The state before the first attempt.
    pub fn new() -> (execution: Self)
        ensures
            execution.retries_made() == 0,
    {
        Execution { retries: 0 }
    }

    /// The number of retries made so far; never more than [`MAX_RETRIES`].
    pub fn retries(&self) -> (retries: u32)
        ensures
            retries == self.retries_made(),
            retries <= MAX_RETRIES,
    {
        proof {
            use_type_invariant(self);
        }
        self.retries
    }

    /// Decides what follows an attempt that was answered with `status`, and
    /// counts the retry if there is one.
    pub fn after_attempt(&mut self, auth: &Auth, status: Option<u16>) -> (step: Step)
        ensures
            step == Step::Retry <==> sends_again(auth@, old(self).retries_made(), status),
            final(self).retries_made() == if step == Step::Retry {
                old(self).retries_made() + 1
            } else {
                old(self).retries_made()
            },
            final(self).retries_made() <= MAX_RETRIES,
    {
        proof {
            use_type_invariant(&*self);
        }
        let unauthorized = match status {
            Some(code) => code == UNAUTHORIZED,
            None => false,
        };
        let copy_kept = match auth {
            Auth::NoAuth => false,
            _ => true,
        };
        if unauthorized && copy_kept && self.retries < MAX_RETRIES {
            self.retries = self.retries + 1;
            Step::Retry
        } else {
            Step::Return
        }
    }
}

/// The loop ends after at most [`MAX_RETRIES`] retries, whatever the broker
/// answers, and the answer it ends on is handed over although it may be a
/// `401`: that happens only when the retries are used up or no copy was kept.
pub proof fn lemma_retries_bounded(auth: AuthView, statuses: Seq<Option<u16>>)
    requires
        statuses.len() > MAX_RETRIES,
    ensures
        settles_at(auth, statuses, 0) <= MAX_RETRIES,
        !sends_again(auth, settles_at(auth, statuses, 0), statuses[settles_at(auth, statuses, 0) as int]),
        forall|n: nat| n < settles_at(auth, statuses, 0) ==> statuses[n as int] == Some(UNAUTHORIZED),
        statuses[settles_at(auth, statuses, 0) as int] == Some(UNAUTHORIZED) ==> !keeps_copy(auth)
            || settles_at(auth, statuses, 0) == MAX_RETRIES,
{
    lemma_settles(auth, statuses, 0);
}

/// The facts about where the loop ends, from any number of retries made.
proof fn lemma_settles(auth: AuthView, statuses: Seq<Option<u16>>, retries: nat)
    requires
        statuses.len() > MAX_RETRIES,
        retries <= MAX_RETRIES,
    ensures
        retries <= settles_at(auth, statuses, retries) <= MAX_RETRIES,
        !sends_again(
            auth,
            settles_at(auth, statuses, retries),
            statuses[settles_at(auth, statuses, retries) as int],
        ),
        forall|n: nat|
            retries <= n < settles_at(auth, statuses, retries) ==> statuses[n as int] == Some(
                UNAUTHORIZED,
            ),
    decreases MAX_RETRIES - retries,
{
    if sends_again(auth, retries, statuses[retries as int]) {
        lemma_settles(auth, statuses, retries + 1);
    }
}

/// With credentials and a broker that answers every attempt with `401`, the
/// request is sent four times: once, and [`MAX_RETRIES`] times again.
pub proof fn lemma_always_unauthorized(auth: AuthView, statuses: Seq<Option<u16>>)
    requires
        keeps_copy(auth),
        statuses.len() > MAX_RETRIES,
        forall|n: int| 0 <= n <= MAX_RETRIES ==> statuses[n] == Some(UNAUTHORIZED),
    ensures
        settles_at(auth, statuses, 0) == MAX_RETRIES,
{
    reveal_with_fuel(settles_at, 5);
}

/// With credentials and a broker that answers `401` and then anything else,
/// the second answer is handed over after one retry, whatever would follow.
pub proof fn lemma_retry_succeeds(auth: AuthView, statuses: Seq<Option<u16>>)
    requires
        keeps_copy(auth),
        statuses.len() >= 2,
        statuses[0] == Some(UNAUTHORIZED),
        statuses[1] != Some(UNAUTHORIZED),
    ensures
        settles_at(auth, statuses, 0) == 1,
{
    reveal_with_fuel(settles_at, 3);
}

/// Without credentials no copy is kept and the first answer is handed over.
pub proof fn lemma_no_auth_no_retry(statuses: Seq<Option<u16>>)
    ensures
        settles_at(AuthView::NoAuth, statuses, 0) == 0,
{
}

} // verus!
