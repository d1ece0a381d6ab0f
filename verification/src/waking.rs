//! Waking the executor of a task.

use std::task::Waker;
use vstd::prelude::*;

verus! {

/// Evidence that a waker was woken: only `wake` makes one.
#[derive(Debug)]
pub struct Woken {
    done: (),
}

/// `Waker::wake`: notifies the executor that the task may be polled again.
/// What comes back only records that the call was made.
#[verifier::external_body]
pub(crate) fn wake(waker: Waker) -> (r: Woken) {
    waker.wake();
    Woken { done: () }
}

} // verus!
