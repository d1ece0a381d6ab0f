//! The decisions of an instance's event loop: which queued work runs next,
//! when the loop is stuck, where a suspended fiber is parked, and what
//! happens to a guest call that cannot start yet.
use vstd::prelude::*;

verus! {

/// What polling the set of pending host futures gave.
#[derive(Clone, Copy, Debug, PartialEq, Eq, Structural)]
pub enum FuturesPoll {
    /// One of them completed, and its output was consumed.
    Completed,
    /// None is left.
    Exhausted,
    /// Some are left, none of them ready.
    Pending,
}

/// The loop's next step while the future it runs for has not completed.
#[derive(Debug)]
pub enum LoopStep<W> {
    /// Handle these work items, then loop again (an empty batch just loops).
    Work(Vec<W>),
    /// No future is left, no work is queued, and the awaited future has not
    /// completed: nothing can make progress.
    Deadlock,
    /// Wait for a pending future to wake the loop.
    Wait,
}

/// Takes the next batch of work: the whole high-priority queue if it has any
/// item, else the whole low-priority queue if it has any; with both empty,
/// the outcome of polling the futures decides.
pub fn next_work<W>(high: &mut Vec<W>, low: &mut Vec<W>, futures: FuturesPoll) -> (r: LoopStep<W>)
    ensures
        old(high)@.len() > 0 ==> {
            &&& r matches LoopStep::Work(batch) && batch@ == old(high)@
            &&& final(high)@ == Seq::<W>::empty()
            &&& final(low)@ == old(low)@
        },
        old(high)@.len() == 0 && old(low)@.len() > 0 ==> {
            &&& r matches LoopStep::Work(batch) && batch@ == old(low)@
            &&& final(high)@ == Seq::<W>::empty()
            &&& final(low)@ == Seq::<W>::empty()
        },
        old(high)@.len() == 0 && old(low)@.len() == 0 ==> {
            &&& final(high)@ == Seq::<W>::empty()
            &&& final(low)@ == Seq::<W>::empty()
            &&& match futures {
                FuturesPoll::Completed => r matches LoopStep::Work(batch) && batch@.len() == 0,
                FuturesPoll::Exhausted => r is Deadlock,
                FuturesPoll::Pending => r is Wait,
            }
        },
{
    let mut batch: Vec<W> = Vec::new();
    std::mem::swap(high, &mut batch);
    if batch.len() > 0 {
        return LoopStep::Work(batch);
    }
    std::mem::swap(low, &mut batch);
    if batch.len() > 0 {
        return LoopStep::Work(batch);
    }
    match futures {
        FuturesPoll::Completed => LoopStep::Work(batch),
        FuturesPoll::Exhausted => LoopStep::Deadlock,
        FuturesPoll::Pending => LoopStep::Wait,
    }
}

/// Why a fiber handed control back to the event loop.
#[derive(Clone, Copy, Debug, PartialEq, Eq, Structural)]
pub enum SuspendReason {
    /// It waits for an event on waitable set `set`, on behalf of `task`.
    Waiting { set: u32, task: u64 },
    /// It finished its work item and can take another.
    NeedWork,
    /// Task `task` yields, to be resumed after others have run.
    Yielding { task: u64 },
}

impl SuspendReason {
    /// The guest task a fiber suspends on behalf of, whose call context is
    /// set aside while it is suspended: none for a fiber that only needs
    /// work.
    pub fn task(&self) -> (r: Option<u64>)
        ensures
            r == match *self {
                SuspendReason::Waiting { task, .. } => Some(task),
                SuspendReason::Yielding { task } => Some(task),
                SuspendReason::NeedWork => None,
            },
    {
        match self {
            SuspendReason::Waiting { task, .. } => Some(*task),
            SuspendReason::Yielding { task } => Some(*task),
            SuspendReason::NeedWork => None,
        }
    }
}

/// Where a suspended fiber goes.
#[derive(Clone, Copy, Debug, PartialEq, Eq, Structural)]
pub enum Parking {
    /// It becomes the instance's idle worker.
    Worker,
    /// It is dropped: the instance already has an idle worker.
    Discard,
    /// It is queued as low-priority work, to be resumed.
    LowPriority,
    /// It waits in set `set` as `task`'s waiter.
    Waiter { set: u32, task: u64 },
}

/// Where a fiber suspended for `reason` is parked; `has_worker` says
/// whether the instance already has an idle worker fiber.
pub fn park(reason: SuspendReason, has_worker: bool) -> (r: Parking)
    ensures
        r == match reason {
            SuspendReason::NeedWork => if has_worker {
                Parking::Discard
            } else {
                Parking::Worker
            },
            SuspendReason::Yielding { .. } => Parking::LowPriority,
            SuspendReason::Waiting { set, task } => Parking::Waiter { set, task },
        },
{
    match reason {
        SuspendReason::NeedWork => if has_worker {
            Parking::Discard
        } else {
            Parking::Worker
        },
        SuspendReason::Yielding { .. } => Parking::LowPriority,
        SuspendReason::Waiting { set, task } => Parking::Waiter { set, task },
    }
}

/// A guest call that cannot run yet is left pending. The first time this
/// happens to its task, the task is marked as told, and the result says
/// whether to tell it: only a call that starts the task sends `Starting`.
pub fn defer_call(starting_sent: &mut bool, starts_task: bool) -> (r: bool)
    ensures
        *final(starting_sent),
        r == (!*old(starting_sent) && starts_task),
{
    if *starting_sent {
        false
    } else {
        *starting_sent = true;
        starts_task
    }
}

} // verus!
