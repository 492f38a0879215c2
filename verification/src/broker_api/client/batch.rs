//! Admission control for a batch of requests.
//!
//! A batch is a run of requests, numbered from zero, that are to be sent
//! concurrently. The batch decides when the next request may start, so that
//! never more than [`MAX_IN_FLIGHT`] are outstanding, and gathers what the
//! requests deliver. A request that fails is set aside; the others go on.
//!
//! The caller owns the requests. It starts request `n` when [`Batch::start_next`]
//! returns `n`, and reports every request it started to [`Batch::complete`]
//! exactly once, in whatever order the requests finish.

use vstd::prelude::*;

verus! {

/// The number of requests that may be outstanding at the same time.
pub const MAX_IN_FLIGHT: usize = 100;

/// What a [`Batch`] stands for.
pub struct BatchView<R> {
    /// The number of requests in the batch.
    pub total: nat,
    /// The number of requests started so far; the next to start has this
    /// number.
    pub started: nat,
    /// The number of requests started and not yet finished.
    pub in_flight: nat,
    /// The number of requests that failed.
    pub failed: nat,
    /// What the successful requests delivered, in the order they finished.
    pub delivered: Seq<R>,
}

impl<R> BatchView<R> {
    /// Every request started is in flight, has delivered or has failed; no
    /// more are started than the batch holds, and no more are in flight than
    /// allowed at a time.
    pub open spec fn wf(self) -> bool {
        &&& self.started <= self.total
        &&& self.in_flight <= MAX_IN_FLIGHT
        &&& self.in_flight + self.delivered.len() + self.failed == self.started
    }

    /// Whether a request may start now.
    pub open spec fn may_start(self) -> bool {
        self.started < self.total && self.in_flight < MAX_IN_FLIGHT
    }

    /// Whether every request has been started and has finished.
    pub open spec fn done(self) -> bool {
        self.started == self.total && self.in_flight == 0
    }

    /// The batch after request number `started` was started.
    pub open spec fn with_one_started(self) -> Self {
        BatchView { started: self.started + 1, in_flight: self.in_flight + 1, ..self }
    }

    /// The batch after a request in flight delivered `item`.
    pub open spec fn succeeded(self, item: R) -> Self {
        BatchView {
            in_flight: (self.in_flight - 1) as nat,
            delivered: self.delivered.push(item),
            ..self
        }
    }

    /// The batch after a request in flight failed.
    pub open spec fn gave_up(self) -> Self {
        BatchView { in_flight: (self.in_flight - 1) as nat, failed: self.failed + 1, ..self }
    }
}

/// A batch of requests in progress.
pub struct Batch<R> {
    total: usize,
    started: usize,
    in_flight: usize,
    failed: usize,
    delivered: Vec<R>,
}

impl<R> View for Batch<R> {
    type V = BatchView<R>;

    closed spec fn view(&self) -> BatchView<R> {
        BatchView {
            total: self.total as nat,
            started: self.started as nat,
            in_flight: self.in_flight as nat,
            failed: self.failed as nat,
            delivered: self.delivered@,
        }
    }
}

impl<R> Batch<R> {
    /// A batch of `total` requests, none of them started.
    pub fn new(total: usize) -> (batch: Self)
        ensures
            batch@ == (BatchView::<R> {
                total: total as nat,
                started: 0,
                in_flight: 0,
                failed: 0,
                delivered: Seq::empty(),
            }),
            batch@.wf(),
    {
        Batch { total, started: 0, in_flight: 0, failed: 0, delivered: Vec::new() }
    }

    /// The number of requests started and not yet finished.
    pub fn in_flight(&self) -> (in_flight: usize)
        ensures
            in_flight == self@.in_flight,
    {
        self.in_flight
    }

    /// The number of requests that failed.
    pub fn failed(&self) -> (failed: usize)
        ensures
            failed == self@.failed,
    {
        self.failed
    }

    /// Whether every request has been started and has finished.
    pub fn is_done(&self) -> (done: bool)
        ensures
            done == self@.done(),
    {
        self.started == self.total && self.in_flight == 0
    }

    /// Starts the next request if one is left and fewer than
    /// [`MAX_IN_FLIGHT`] are outstanding. Returns the number of the request
    /// to start, or `None` if none may start now.
    pub fn start_next(&mut self) -> (next: Option<usize>)
        requires
            old(self)@.wf(),
        ensures
            final(self)@.wf(),
            match next {
                Some(number) => {
                    &&& old(self)@.may_start()
                    &&& number == old(self)@.started
                    &&& final(self)@ == old(self)@.with_one_started()
                },
                None => !old(self)@.may_start() && final(self)@ == old(self)@,
            },
    {
        if self.started < self.total && self.in_flight < MAX_IN_FLIGHT {
            let number = self.started;
            self.started = self.started + 1;
            self.in_flight = self.in_flight + 1;
            Some(number)
        } else {
            None
        }
    }

    /// Takes in the outcome of a request in flight. What a successful request
    /// delivered is kept; the error of a failed one is handed back, and the
    /// batch goes on without it.
    pub fn complete<E>(&mut self, outcome: Result<R, E>) -> (failure: Option<E>)
        requires
            old(self)@.wf(),
            old(self)@.in_flight > 0,
        ensures
            final(self)@.wf(),
            match outcome {
                Ok(item) => failure is None && final(self)@ == old(self)@.succeeded(item),
                Err(error) => failure == Some(error) && final(self)@ == old(self)@.gave_up(),
            },
    {
        self.in_flight = self.in_flight - 1;
        match outcome {
            Ok(item) => {
                self.delivered.push(item);
                None
            },
            Err(error) => {
                self.failed = self.failed + 1;
                Some(error)
            },
        }
    }

    /// What the successful requests delivered, in the order they finished.
    pub fn into_delivered(self) -> (delivered: Vec<R>)
        ensures
            delivered@ == self@.delivered,
    {
        self.delivered
    }
}

/// Once a batch is done, every one of its requests has either delivered or
/// failed: a failure costs the batch that one request and no other.
pub proof fn lemma_done_accounts_for_all<R>(batch: BatchView<R>)
    requires
        batch.wf(),
        batch.done(),
    ensures
        batch.delivered.len() + batch.failed == batch.total,
        batch.failed == 0 ==> batch.delivered.len() == batch.total,
{
}

/// Whatever the batch is told, the number of requests in flight stays within
/// [`MAX_IN_FLIGHT`], and while a request is left and the limit is not
/// reached the batch starts one.
pub proof fn lemma_steps_keep_bound<R>(batch: BatchView<R>, item: R)
    requires
        batch.wf(),
    ensures
        batch.may_start() ==> batch.with_one_started().wf(),
        batch.in_flight > 0 ==> batch.succeeded(item).wf() && batch.gave_up().wf(),
        !batch.done() ==> batch.may_start() || batch.in_flight > 0,
{
}

} // verus!
