//! Synchronous cancellation of a spawned host task.

use std::task::Waker;
use crate::waking::{wake, Woken};
use vstd::prelude::*;

verus! {

#[verifier::external_type_specification]
#[verifier::external_body]
pub struct ExWaker(std::task::Waker);

/// Wraps a future so that it can be cancelled synchronously.
pub enum AbortWrapper<F> {
    /// The future has not been polled yet.
    Unpolled(F),
    /// The future has been polled at least once; `waker` belongs to its
    /// last poll.
    Polled { future: F, waker: Waker },
    /// The future has been cancelled.
    Aborted,
}

/// The waker to notify when a wrapper in this state is cancelled.
pub open spec fn waker_to_notify<F>(w: AbortWrapper<F>) -> Option<Waker> {
    match w {
        AbortWrapper::Polled { waker, .. } => Some(waker),
        _ => None,
    }
}

impl<F> AbortWrapper<F> {
    /// Drops the inner future and hands back the waker of its last poll,
    /// if it was ever polled.
    pub fn take_waker(&mut self) -> (r: Option<Waker>)
        ensures
            *final(self) is Aborted,
            r == waker_to_notify(*old(self)),
    {
        let mut state = AbortWrapper::Aborted;
        std::mem::swap(self, &mut state);
        match state {
            AbortWrapper::Polled { waker, .. } => Some(waker),
            _ => None,
        }
    }

    /// Cancels the inner future synchronously: drops it and wakes the waker
    /// of its last poll, if it was ever polled, so that the task is polled
    /// once more and finishes. The result is the evidence of that wake:
    /// present exactly when the future had been polled. Aborting again does
    /// nothing.
    pub fn abort(&mut self) -> (r: Option<Woken>)
        ensures
            *final(self) is Aborted,
            r is Some <==> *old(self) is Polled,
    {
        match self.take_waker() {
            Some(waker) => Some(wake(waker)),
            None => None,
        }
    }
}

/// The future a wrapper in this state still holds.
pub open spec fn held_future<F>(w: AbortWrapper<F>) -> Option<F> {
    match w {
        AbortWrapper::Unpolled(f) => Some(f),
        AbortWrapper::Polled { future, .. } => Some(future),
        AbortWrapper::Aborted => None,
    }
}

impl<F> AbortWrapper<F> {
    /// Takes the future out for a poll, leaving the wrapper `Aborted` while
    /// it is out. Once cancelled there is none: the task then finishes
    /// without output.
    pub fn take_for_poll(&mut self) -> (r: Option<F>)
        ensures
            *final(self) is Aborted,
            r == held_future(*old(self)),
    {
        let mut state = AbortWrapper::Aborted;
        std::mem::swap(self, &mut state);
        match state {
            AbortWrapper::Unpolled(f) => Some(f),
            AbortWrapper::Polled { future, .. } => Some(future),
            AbortWrapper::Aborted => None,
        }
    }

    /// Puts the future back after a poll, with the waker of that poll.
    pub fn after_poll(&mut self, future: F, waker: Waker)
        ensures
            *final(self) == (AbortWrapper::Polled { future, waker }),
    {
        *self = AbortWrapper::Polled { future, waker };
    }
}

/// A cancelled future is never polled again: taking the future out of a
/// wrapper after `abort` finds none.
pub proof fn lemma_aborted_never_polled<F>(w: AbortWrapper<F>)
    requires
        w is Aborted,
    ensures
        held_future(w) is None,
        waker_to_notify(w) is None,
{
}

} // verus!
