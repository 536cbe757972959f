//! Waiting on the notification channel. A `Waited` is the record of one
//! wait: the limit it was made with and what it gave. Its fields are
//! private and only `wait_for` builds one, so outside this module every
//! `Waited` stands for a wait that was really made on a channel.

use vstd::prelude::*;

use crate::debounce::RecvOutcome;

verus! {

#[verifier::external_type_specification]
#[verifier::external_body]
#[verifier::reject_recursive_types(T)]
pub struct ExReceiver<T>(std::sync::mpsc::Receiver<T>);

/// How long one wait may last.
#[derive(Clone, Copy, Debug)]
pub enum WaitLimit {
    /// Until a notification arrives or every sender is gone.
    Unlimited,
    /// At most this long.
    Within(std::time::Duration),
}

/// A wait as a mathematical value.
pub struct WaitView {
    pub limit: WaitLimit,
    pub outcome: RecvOutcome,
}

/// One wait that was made: its limit and its outcome.
pub struct Waited {
    limit: WaitLimit,
    outcome: RecvOutcome,
}

impl View for Waited {
    type V = WaitView;

    closed spec fn view(&self) -> WaitView {
        WaitView { limit: self.limit, outcome: self.outcome }
    }
}

impl Waited {
    /// What the wait gave.
    pub fn outcome(&self) -> (o: RecvOutcome)
        ensures
            o == self@.outcome,
    {
        self.outcome
    }

    /// The limit the wait was made with.
    pub fn limit(&self) -> (l: WaitLimit)
        ensures
            l == self@.limit,
    {
        self.limit
    }
}

/// Wraps `Receiver::recv`: blocks until a notification arrives or every
/// sender is gone. Which of the two happens depends on other threads; the
/// documentation promises that it never gives up on a time limit.
#[verifier::external_body]
fn recv_blocking(rx: &std::sync::mpsc::Receiver<()>) -> (outcome: RecvOutcome)
    ensures
        outcome != RecvOutcome::TimedOut,
{
    match rx.recv() {
        Ok(()) => RecvOutcome::Received,
        Err(_) => RecvOutcome::Disconnected,
    }
}

/// Wraps `Receiver::recv_timeout`: waits at most `timeout` for a
/// notification. What comes back depends on other threads and on time, so
/// nothing is promised of it.
#[verifier::external_body]
fn recv_within(rx: &std::sync::mpsc::Receiver<()>, timeout: std::time::Duration) -> (outcome:
    RecvOutcome) {
    match rx.recv_timeout(timeout) {
        Ok(()) => RecvOutcome::Received,
        Err(std::sync::mpsc::RecvTimeoutError::Timeout) => RecvOutcome::TimedOut,
        Err(std::sync::mpsc::RecvTimeoutError::Disconnected) => RecvOutcome::Disconnected,
    }
}

/// Waits once on `rx` with the given limit: with no limit through
/// `Receiver::recv`, which never times out; within a duration through
/// `Receiver::recv_timeout` with that duration. The record says which limit
/// was used; what arrived depends on other threads and on time.
pub fn wait_for(rx: &std::sync::mpsc::Receiver<()>, limit: WaitLimit) -> (w: Waited)
    ensures
        w@.limit == limit,
        limit is Unlimited ==> w@.outcome != RecvOutcome::TimedOut,
{
    match limit {
        WaitLimit::Unlimited => Waited { limit, outcome: recv_blocking(rx) },
        WaitLimit::Within(timeout) => Waited { limit, outcome: recv_within(rx, timeout) },
    }
}

} // verus!
