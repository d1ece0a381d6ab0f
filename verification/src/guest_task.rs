//! Decisions the async runtime takes for a guest task: what its callback
//! code asks for, when cancelling it ends, its context slots, and the
//! backpressure of its instance.

use crate::abi::{status_code, Event, Status, CALLBACK_EXIT, CALLBACK_POLL, CALLBACK_WAIT, CALLBACK_YIELD};
use std::collections::HashMap;
use vstd::prelude::*;

verus! {

/// What the runtime does after an async-lifted export or its callback
/// returned a callback code.
#[derive(Clone, Copy, Debug, PartialEq, Eq, Structural)]
pub enum CallbackAction {
    /// The task is done and its caller is the host: delete it.
    DeleteTask,
    /// The task is done and its caller is a guest: drop its callback.
    DropCallback,
    /// Queue the task behind other work, with an empty event.
    Yield,
    /// An event is available on the waitable set: deliver it at once.
    DeliverNow { set: u32 },
    /// Nothing is available on the set: check again after other work.
    PollLater { set: u32 },
    /// Nothing is available on the set: wait until something is.
    Wait { set: u32 },
}

/// Why a callback code was refused.
#[derive(Clone, Copy, Debug, PartialEq, Eq, Structural)]
pub enum CallbackError {
    /// The task exited without returning a result.
    NoAsyncResult,
    /// The code named a handle that is not a waitable set.
    InvalidWaitableSet,
    /// The code is not one of the callback codes.
    UnsupportedCode(u32),
}

/// What a task's callback code decides.
#[derive(Clone, Copy, Debug)]
pub struct CallbackDecision {
    /// Whether waiters must first learn that the task has started.
    pub notify_started: bool,
    /// What to do next, or why the code was refused.
    pub action: Result<CallbackAction, CallbackError>,
}

/// The task whose callback returned a code, as far as the decision needs it.
#[derive(Clone, Copy, Debug, PartialEq, Eq, Structural)]
pub struct TaskView {
    /// The task has not yet returned its result.
    pub awaiting_result: bool,
    /// Its caller is the host (not another guest task).
    pub caller_is_host: bool,
    /// An event is pending for the task itself.
    pub event_pending: bool,
}

/// The decision for callback code `code` (whose upper 28 bits name a
/// waitable-set handle). `set_rep` is what that handle resolves to in the
/// caller's table when it is a waitable set, and `set_ready` whether that
/// set has a waitable with an event.
pub open spec fn callback_decision(
    code: u32,
    task: TaskView,
    initial_call: bool,
    set_rep: Option<u32>,
    set_ready: bool,
) -> CallbackDecision {
    let c = code % 16;
    let handle = code / 16;
    if task.awaiting_result && c == CALLBACK_EXIT {
        CallbackDecision { notify_started: false, action: Err(CallbackError::NoAsyncResult) }
    } else {
        let notify = task.awaiting_result && initial_call;
        let action = if c == CALLBACK_EXIT {
            if task.caller_is_host {
                Ok(CallbackAction::DeleteTask)
            } else {
                Ok(CallbackAction::DropCallback)
            }
        } else if c == CALLBACK_YIELD {
            Ok(CallbackAction::Yield)
        } else if c == CALLBACK_WAIT || c == CALLBACK_POLL {
            if handle == 0 || set_rep is None {
                Err(CallbackError::InvalidWaitableSet)
            } else if task.event_pending || set_ready {
                Ok(CallbackAction::DeliverNow { set: set_rep->0 })
            } else if c == CALLBACK_POLL {
                Ok(CallbackAction::PollLater { set: set_rep->0 })
            } else {
                Ok(CallbackAction::Wait { set: set_rep->0 })
            }
        } else {
            Err(CallbackError::UnsupportedCode(c as u32))
        };
        CallbackDecision { notify_started: notify, action }
    }
}

/// Decides what a callback code asks of the runtime. A task that has not
/// returned its result may not exit; when it first reports a code, its
/// waiters learn that it started. Waiting and polling need a valid
/// waitable-set handle; an event already available is delivered at once.
pub fn decide_callback(
    code: u32,
    task: TaskView,
    initial_call: bool,
    set_rep: Option<u32>,
    set_ready: bool,
) -> (r: CallbackDecision)
    ensures
        r == callback_decision(code, task, initial_call, set_rep, set_ready),
{
    let (c, handle) = crate::abi::unpack_callback_code(code);
    if task.awaiting_result && c == CALLBACK_EXIT {
        return CallbackDecision { notify_started: false, action: Err(CallbackError::NoAsyncResult) };
    }
    let notify = task.awaiting_result && initial_call;
    let action = if c == CALLBACK_EXIT {
        if task.caller_is_host {
            Ok(CallbackAction::DeleteTask)
        } else {
            Ok(CallbackAction::DropCallback)
        }
    } else if c == CALLBACK_YIELD {
        Ok(CallbackAction::Yield)
    } else if c == CALLBACK_WAIT || c == CALLBACK_POLL {
        match set_rep {
            Some(set) => {
                if handle == 0 {
                    Err(CallbackError::InvalidWaitableSet)
                } else if task.event_pending || set_ready {
                    Ok(CallbackAction::DeliverNow { set })
                } else if c == CALLBACK_POLL {
                    Ok(CallbackAction::PollLater { set })
                } else {
                    Ok(CallbackAction::Wait { set })
                }
            },
            None => Err(CallbackError::InvalidWaitableSet),
        }
    } else {
        Err(CallbackError::UnsupportedCode(c))
    };
    CallbackDecision { notify_started: notify, action }
}

/// A task that has not returned never gets to exit, and every code other
/// than the four callback codes is refused.
pub proof fn lemma_callback_refusals(
    code: u32,
    task: TaskView,
    initial_call: bool,
    set_rep: Option<u32>,
    set_ready: bool,
)
    ensures
        task.awaiting_result && code % 16 == CALLBACK_EXIT ==> callback_decision(
            code,
            task,
            initial_call,
            set_rep,
            set_ready,
        ).action == Err::<CallbackAction, CallbackError>(CallbackError::NoAsyncResult),
        code % 16 > CALLBACK_POLL ==> callback_decision(
            code,
            task,
            initial_call,
            set_rep,
            set_ready,
        ).action is Err,
{
}

/// A task that waits or polls on a valid waitable set gets an event at once
/// whenever one is available, for the task itself or on the set; only with
/// none does a wait park the task on the set and a poll come back later.
pub proof fn lemma_wait_and_poll_deliver_pending_events(
    code: u32,
    task: TaskView,
    initial_call: bool,
    set: u32,
    set_ready: bool,
)
    requires
        code % 16 == CALLBACK_WAIT || code % 16 == CALLBACK_POLL,
        code / 16 != 0,
    ensures
        task.event_pending || set_ready ==> callback_decision(
            code,
            task,
            initial_call,
            Some(set),
            set_ready,
        ).action == Ok::<CallbackAction, CallbackError>(CallbackAction::DeliverNow { set }),
        !task.event_pending && !set_ready && code % 16 == CALLBACK_WAIT ==> callback_decision(
            code,
            task,
            initial_call,
            Some(set),
            set_ready,
        ).action == Ok::<CallbackAction, CallbackError>(CallbackAction::Wait { set }),
        !task.event_pending && !set_ready && code % 16 == CALLBACK_POLL ==> callback_decision(
            code,
            task,
            initial_call,
            Some(set),
            set_ready,
        ).action == Ok::<CallbackAction, CallbackError>(CallbackAction::PollLater { set }),
{
}

/// What each callback code asks, for a task that may act on it: exit ends
/// the task (deleting it when the host called it, dropping its callback when
/// a guest did), yield queues it behind other work, and waiting or polling
/// needs a handle naming a waitable set. Waiters learn that the task started
/// exactly on its first code while it still owes its result.
pub proof fn lemma_callback_codes(
    code: u32,
    task: TaskView,
    initial_call: bool,
    set_rep: Option<u32>,
    set_ready: bool,
)
    ensures
        !task.awaiting_result && code % 16 == CALLBACK_EXIT ==> callback_decision(
            code,
            task,
            initial_call,
            set_rep,
            set_ready,
        ).action == Ok::<CallbackAction, CallbackError>(
            if task.caller_is_host {
                CallbackAction::DeleteTask
            } else {
                CallbackAction::DropCallback
            },
        ),
        code % 16 == CALLBACK_YIELD ==> callback_decision(
            code,
            task,
            initial_call,
            set_rep,
            set_ready,
        ).action == Ok::<CallbackAction, CallbackError>(CallbackAction::Yield),
        (code % 16 == CALLBACK_WAIT || code % 16 == CALLBACK_POLL) && (code / 16 == 0
            || set_rep is None) ==> callback_decision(
            code,
            task,
            initial_call,
            set_rep,
            set_ready,
        ).action == Err::<CallbackAction, CallbackError>(CallbackError::InvalidWaitableSet),
        code % 16 > CALLBACK_POLL ==> callback_decision(
            code,
            task,
            initial_call,
            set_rep,
            set_ready,
        ).action == Err::<CallbackAction, CallbackError>(
            CallbackError::UnsupportedCode(code % 16),
        ),
        !(task.awaiting_result && code % 16 == CALLBACK_EXIT) ==> callback_decision(
            code,
            task,
            initial_call,
            set_rep,
            set_ready,
        ).notify_started == (task.awaiting_result && initial_call),
{
}

/// Why cancelling a subtask could not report a terminal status.
#[derive(Clone, Copy, Debug, PartialEq, Eq, Structural)]
pub struct AlreadyDelivered;

/// The status that `subtask.cancel` reports once the subtask has settled:
/// the pending subtask event must say that it returned or that its return
/// was cancelled.
pub open spec fn cancel_result(event: Option<Event>) -> Result<u32, AlreadyDelivered> {
    match event {
        Some(Event::Subtask { status }) => if status == Status::Returned || status
            == Status::ReturnCancelled {
            Ok(status_code(status))
        } else {
            Err(AlreadyDelivered)
        },
        _ => Err(AlreadyDelivered),
    }
}

/// Reads the terminal status of a cancelled subtask from its pending event.
pub fn subtask_cancel_result(event: Option<Event>) -> (r: Result<u32, AlreadyDelivered>)
    ensures
        r == cancel_result(event),
{
    match event {
        Some(Event::Subtask { status }) => match status {
            Status::Returned | Status::ReturnCancelled => Ok(status.code()),
            _ => Err(AlreadyDelivered),
        },
        _ => Err(AlreadyDelivered),
    }
}

/// How cancelling a guest subtask proceeds, from what state it is in.
#[derive(Clone, Copy, Debug, PartialEq, Eq, Structural)]
pub enum CancelStep {
    /// Not started: drop it from the pending calls and report
    /// `StartCancelled`.
    DropPending,
    /// Started but not returned: send it the cancelled event.
    SendCancel,
    /// Already returned or cancelled: report its terminal status.
    ReadStatus,
}

/// The first step of cancelling a guest subtask: one not yet started is
/// dropped, one running is told, one finished reports how it finished.
pub fn cancel_step(not_started: bool, awaiting_result: bool) -> (r: CancelStep)
    ensures
        r == if not_started {
            CancelStep::DropPending
        } else if awaiting_result {
            CancelStep::SendCancel
        } else {
            CancelStep::ReadStatus
        },
{
    if not_started {
        CancelStep::DropPending
    } else if awaiting_result {
        CancelStep::SendCancel
    } else {
        CancelStep::ReadStatus
    }
}

/// Cancels a host subtask. While it still has its abort handle, the handle
/// is taken (through it the caller aborts the task's future) and the answer
/// is `ReturnCancelled`; without one (`None`), the task has finished and its
/// status is read from its event.
pub fn cancel_host_task<H>(abort_handle: &mut Option<H>) -> (r: Option<(H, u32)>)
    ensures
        *final(abort_handle) is None,
        match *old(abort_handle) {
            Some(h) => r == Some((h, status_code(Status::ReturnCancelled))),
            None => r is None,
        },
{
    match abort_handle.take() {
        Some(h) => Some((h, Status::ReturnCancelled.code())),
        None => None,
    }
}

/// What a guest subtask still owes before and after it starts.
#[derive(Clone, Copy, Debug, PartialEq, Eq, Structural)]
pub struct StartState {
    /// Its parameters are still to be lowered: it has not started.
    pub lower_pending: bool,
    /// Its result is still to be lifted: it has not returned.
    pub lift_pending: bool,
}

/// Cancels a guest subtask that has not started: it will lower no
/// parameters and lift no result, and `removed` says whether its start call
/// was still among its instance's pending calls. The answer is
/// `StartCancelled`; with no pending call, its terminal status was already
/// delivered.
pub fn cancel_unstarted(task: &mut StartState, removed: bool) -> (r: Result<u32, AlreadyDelivered>)
    requires
        old(task).lower_pending,
    ensures
        *final(task) == (StartState { lower_pending: false, lift_pending: false }),
        r == if removed {
            Ok::<u32, AlreadyDelivered>(status_code(Status::StartCancelled))
        } else {
            Err(AlreadyDelivered)
        },
{
    task.lower_pending = false;
    task.lift_pending = false;
    if removed {
        Ok(Status::StartCancelled.code())
    } else {
        Err(AlreadyDelivered)
    }
}

/// What a caller does after telling a running subtask it is cancelled.
#[derive(Clone, Copy, Debug, PartialEq, Eq, Structural)]
pub enum AfterCancelSent {
    /// The subtask still owes its result: an async caller is answered
    /// `BLOCKED`.
    Blocked,
    /// The subtask still owes its result: a sync caller waits for it.
    Wait,
    /// The subtask settled: its terminal status is read from its event.
    ReadStatus,
}

/// The caller's next step once the cancelled event is sent.
pub fn after_cancel_sent(lift_pending: bool, async_caller: bool) -> (r: AfterCancelSent)
    ensures
        r == if !lift_pending {
            AfterCancelSent::ReadStatus
        } else if async_caller {
            AfterCancelSent::Blocked
        } else {
            AfterCancelSent::Wait
        },
{
    if !lift_pending {
        AfterCancelSent::ReadStatus
    } else if async_caller {
        AfterCancelSent::Blocked
    } else {
        AfterCancelSent::Wait
    }
}

/// The two context slots of a guest task (`context.get`/`context.set`).
#[derive(Clone, Copy, Debug)]
pub struct TaskContext {
    slots: [u32; 2],
}

impl TaskContext {
    /// The value of slot `i`.
    pub closed spec fn slot(&self, i: int) -> u32 {
        self.slots@[i]
    }

    /// Both slots zero.
    pub fn new() -> (r: Self)
        ensures
            r.slot(0) == 0,
            r.slot(1) == 0,
    {
        TaskContext { slots: [0u32; 2] }
    }

    /// The value of a slot.
    pub fn get(&self, slot: u32) -> (r: u32)
        requires
            slot < 2,
        ensures
            r == self.slot(slot as int),
    {
        self.slots[slot as usize]
    }

    /// Sets a slot, leaving the other as it was.
    pub fn set(&mut self, slot: u32, val: u32)
        requires
            slot < 2,
        ensures
            final(self).slot(slot as int) == val,
            final(self).slot(1 - slot) == old(self).slot(1 - slot),
    {
        self.slots[slot as usize] = val;
    }
}

/// The concurrency state of a (sub-)component instance.
#[derive(Clone, Copy, Debug, PartialEq, Eq, Structural, Default)]
pub struct InstanceState {
    /// Whether backpressure is set.
    pub backpressure: bool,
    /// Whether the instance is on the call stack and may not be entered.
    pub do_not_enter: bool,
}

impl InstanceState {
    /// Implements `backpressure.set`: any nonzero value enables it. Returns
    /// whether pending calls must be re-examined, which is when backpressure
    /// was on and is now off.
    pub fn set_backpressure(&mut self, enabled: u32) -> (r: bool)
        ensures
            final(self).backpressure == (enabled != 0),
            final(self).do_not_enter == old(self).do_not_enter,
            r == (old(self).backpressure && enabled == 0),
    {
        let old = self.backpressure;
        let new = enabled != 0;
        self.backpressure = new;
        old && !new
    }

    /// Records that the instance was entered and may not be entered again
    /// until it is exited.
    pub fn enter(&mut self)
        ensures
            final(self).do_not_enter,
            final(self).backpressure == old(self).backpressure,
    {
        self.do_not_enter = true;
    }

    /// Records that the instance was exited; pending calls must then be
    /// re-examined.
    pub fn exit(&mut self)
        ensures
            !final(self).do_not_enter,
            final(self).backpressure == old(self).backpressure,
    {
        self.do_not_enter = false;
    }
}

impl InstanceState {
    /// Whether a queued call into this instance may run now: never while
    /// the instance is entered, and a call that starts a task not while
    /// backpressure is set (delivering an event to a started task is fine).
    pub fn call_ready(&self, starts_task: bool) -> (r: bool)
        ensures
            r == call_is_ready(*self, starts_task),
    {
        !(self.do_not_enter || (starts_task && self.backpressure))
    }
}

/// Whether a call that starts a task (`starts_task`) or delivers an event
/// may run in an instance in state `s`.
pub open spec fn call_is_ready(s: InstanceState, starts_task: bool) -> bool {
    !(s.do_not_enter || (starts_task && s.backpressure))
}

/// A call queued for a guest task of an instance.
pub struct PendingCall<K> {
    /// The task.
    pub task: u32,
    /// Whether the call starts the task (rather than delivering an event).
    pub starts_task: bool,
    /// What the call does.
    pub kind: K,
}

/// The calls of `s` that may run now, in order.
pub open spec fn ready_calls<K>(state: InstanceState, s: Seq<PendingCall<K>>) -> Seq<PendingCall<K>>
    decreases s.len(),
{
    if s.len() == 0 {
        Seq::empty()
    } else if call_is_ready(state, s.last().starts_task) {
        ready_calls(state, s.drop_last()).push(s.last())
    } else {
        ready_calls(state, s.drop_last())
    }
}

/// The calls of `s` that must keep waiting, in order.
pub open spec fn waiting_calls<K>(state: InstanceState, s: Seq<PendingCall<K>>) -> Seq<PendingCall<K>>
    decreases s.len(),
{
    if s.len() == 0 {
        Seq::empty()
    } else if call_is_ready(state, s.last().starts_task) {
        waiting_calls(state, s.drop_last())
    } else {
        waiting_calls(state, s.drop_last()).push(s.last())
    }
}

/// Splits the calls pending for an instance into those that may run now
/// and those that must keep waiting, each in the order given.
pub fn partition_pending<K>(state: InstanceState, pending: Vec<PendingCall<K>>) -> (r: (
    Vec<PendingCall<K>>,
    Vec<PendingCall<K>>,
))
    ensures
        r.0@ == ready_calls(state, pending@),
        r.1@ == waiting_calls(state, pending@),
{
    let ghost all = pending@;
    let mut rest = pending;
    let mut rev: Vec<PendingCall<K>> = Vec::new();
    while rest.len() > 0
        invariant
            all == rest@ + rev@.reverse(),
        decreases rest.len(),
    {
        let c = rest.pop().unwrap();
        rev.push(c);
        proof {
            assert(all =~= rest@ + rev@.reverse());
        }
    }
    proof {
        assert(rest@ =~= Seq::<PendingCall<K>>::empty());
        assert(all =~= rev@.reverse());
    }
    let mut ready: Vec<PendingCall<K>> = Vec::new();
    let mut waiting: Vec<PendingCall<K>> = Vec::new();
    let ghost n = all.len();
    while rev.len() > 0
        invariant
            n == all.len(),
            rev@.len() <= n,
            all == all.take(n - rev@.len()) + rev@.reverse(),
            ready@ == ready_calls(state, all.take(n - rev@.len())),
            waiting@ == waiting_calls(state, all.take(n - rev@.len())),
        decreases rev.len(),
    {
        let ghost done = all.take(n - rev@.len());
        let c = rev.pop().unwrap();
        proof {
            let next = all.take(n - rev@.len());
            assert(next.drop_last() =~= done);
            assert(all[n - rev@.len() - 1] == c) by {
                assert(all =~= done + rev@.push(c).reverse());
            }
            assert(next.last() == c);
            assert(all =~= next + rev@.reverse()) by {
                assert(all =~= done + rev@.push(c).reverse());
                assert(rev@.push(c).reverse() =~= seq![c] + rev@.reverse());
            }
        }
        if state.call_ready(c.starts_task) {
            ready.push(c);
        } else {
            waiting.push(c);
        }
    }
    proof {
        assert(all.take(n as int) =~= all);
    }
    (ready, waiting)
}

/// Every pending call ends up in exactly one of the two lists; with the
/// instance neither entered nor under backpressure all of them may run, and
/// while it is entered none may.
pub proof fn lemma_partition_pending<K>(state: InstanceState, p: Seq<PendingCall<K>>)
    ensures
        ready_calls(state, p).len() + waiting_calls(state, p).len() == p.len(),
        !state.do_not_enter && !state.backpressure ==> ready_calls(state, p) == p,
        state.do_not_enter ==> waiting_calls(state, p) == p,
    decreases p.len(),
{
    if p.len() > 0 {
        lemma_partition_pending(state, p.drop_last());
        assert(p.drop_last().push(p.last()) =~= p);
    }
}

/// Why `task.return` or `task.cancel` was refused.
#[derive(Clone, Copy, Debug, PartialEq, Eq, Structural)]
pub enum TaskError {
    /// The task already returned or cancelled itself.
    AlreadyCompleted,
    /// `task.cancel` by a task that was not asked to cancel.
    NotCancelled,
    /// `task.return` with a type or options other than the task's.
    SignatureMismatch,
}

/// The checks of `task.return`: the task must still owe its result, and the
/// result type, memory (when one is given) and string encoding must be the
/// task's.
pub fn check_task_return(
    owes_result: bool,
    ty: u32,
    expected_ty: u32,
    memory: Option<u64>,
    expected_memory: Option<u64>,
    string_encoding: u8,
    expected_string_encoding: u8,
) -> (r: Result<(), TaskError>)
    ensures
        r == if !owes_result {
            Err(TaskError::AlreadyCompleted)
        } else if ty != expected_ty || (memory is Some && memory != expected_memory)
            || string_encoding != expected_string_encoding {
            Err(TaskError::SignatureMismatch)
        } else {
            Ok::<(), TaskError>(())
        },
{
    if !owes_result {
        return Err(TaskError::AlreadyCompleted);
    }
    let memory_mismatch = match memory {
        Some(m) => match expected_memory {
            Some(e) => m != e,
            None => true,
        },
        None => false,
    };
    if ty != expected_ty || memory_mismatch || string_encoding != expected_string_encoding {
        return Err(TaskError::SignatureMismatch);
    }
    Ok(())
}

/// The checks of `task.cancel`: the task must have been asked to cancel and
/// must still owe its result.
pub fn check_task_cancel(cancel_sent: bool, owes_result: bool) -> (r: Result<(), TaskError>)
    ensures
        r == if !cancel_sent {
            Err(TaskError::NotCancelled)
        } else if !owes_result {
            Err(TaskError::AlreadyCompleted)
        } else {
            Ok::<(), TaskError>(())
        },
{
    if !cancel_sent {
        return Err(TaskError::NotCancelled);
    }
    if !owes_result {
        return Err(TaskError::AlreadyCompleted);
    }
    Ok(())
}

broadcast use vstd::std_specs::hash::group_hash_axioms;

/// Who called a guest task.
#[derive(Clone, Copy, Debug, PartialEq, Eq, Structural)]
pub enum Caller {
    /// The host.
    Host,
    /// Guest task `task`, running in instance `instance`.
    Guest { task: u32, instance: u32 },
}

/// Where a guest task runs and who called it.
#[derive(Clone, Copy, Debug, PartialEq, Eq, Structural)]
pub struct TaskLink {
    /// The (sub-)component instance the task runs in.
    pub instance: u32,
    /// Its caller.
    pub caller: Caller,
}

/// Walking up at most `fuel` callers from task `t`: `Some(false)` on
/// reaching a caller that runs in `instance`, `Some(true)` on reaching the
/// host first, `None` when the walk leaves the table or runs out of fuel.
pub open spec fn enter_check(tasks: Map<u32, TaskLink>, instance: u32, t: u32, fuel: nat) -> Option<
    bool,
>
    decreases fuel,
{
    if fuel == 0 || !tasks.contains_key(t) {
        None
    } else {
        match tasks[t].caller {
            Caller::Host => Some(true),
            Caller::Guest { task, instance: i } => if i == instance {
                Some(false)
            } else {
                enter_check(tasks, instance, task, (fuel - 1) as nat)
            },
        }
    }
}

proof fn lemma_enter_check_agree(tasks: Map<u32, TaskLink>, instance: u32, t: u32, f1: nat, f2: nat)
    requires
        enter_check(tasks, instance, t, f1) is Some,
        enter_check(tasks, instance, t, f2) is Some,
    ensures
        enter_check(tasks, instance, t, f1) == enter_check(tasks, instance, t, f2),
    decreases f1,
{
    if let Caller::Guest { task, instance: i } = tasks[t].caller {
        if i != instance {
            lemma_enter_check_agree(tasks, instance, task, (f1 - 1) as nat, (f2 - 1) as nat);
        }
    }
}

/// Whether guest task `task` may enter its instance: no task on its chain
/// of callers up to the host runs in that instance. The chain must reach
/// the host or such a task within the table.
pub fn may_enter(tasks: &HashMap<u32, TaskLink>, task: u32) -> (r: bool)
    requires
        tasks@.contains_key(task),
        exists|fuel: nat| enter_check(tasks@, tasks@[task].instance, task, fuel) is Some,
    ensures
        forall|fuel: nat|
            #[trigger] enter_check(tasks@, tasks@[task].instance, task, fuel) matches Some(b) ==> b
                == r,
{
    let instance = match tasks.get(&task) {
        Some(link) => link.instance,
        None => return true,
    };
    let ghost m = tasks@;
    let ghost start_fuel = choose|fuel: nat| enter_check(m, instance, task, fuel) is Some;
    let ghost mut fuel: nat = start_fuel;
    let mut t = task;
    loop
        invariant
            m == tasks@,
            m.contains_key(task),
            instance == m[task].instance,
            enter_check(m, instance, t, fuel) == enter_check(m, instance, task, start_fuel),
            enter_check(m, instance, task, start_fuel) is Some,
        decreases fuel,
    {
        let link = match tasks.get(&t) {
            Some(link) => *link,
            None => return true,
        };
        match link.caller {
            Caller::Host => {
                proof {
                    assert forall|f: nat| #[trigger]
                        enter_check(m, instance, task, f) is Some implies enter_check(
                            m,
                            instance,
                            task,
                            f,
                        )->0 == true by {
                        lemma_enter_check_agree(m, instance, task, f, start_fuel);
                    }
                }
                return true;
            },
            Caller::Guest { task: caller, instance: i } => {
                if i == instance {
                    proof {
                        assert forall|f: nat| #[trigger]
                            enter_check(m, instance, task, f) is Some implies enter_check(
                                m,
                                instance,
                                task,
                                f,
                            )->0 == false by {
                            lemma_enter_check_agree(m, instance, task, f, start_fuel);
                        }
                    }
                    return false;
                }
                t = caller;
                proof {
                    fuel = (fuel - 1) as nat;
                }
            },
        }
    }
}

/// Why `subtask.drop` was refused.
#[derive(Clone, Copy, Debug, PartialEq, Eq, Structural)]
pub enum SubtaskDropError {
    /// The subtask has not yet resolved.
    NotResolved,
    /// The subtask has an event that was not delivered.
    UndeliveredEvent,
}

/// The checks of `subtask.drop`: the subtask must have resolved, and then
/// the event taken from it must be none.
pub fn check_subtask_drop(resolved: bool, taken_event: Option<Event>) -> (r: Result<
    (),
    SubtaskDropError,
>)
    ensures
        r == if !resolved {
            Err(SubtaskDropError::NotResolved)
        } else if taken_event is Some {
            Err(SubtaskDropError::UndeliveredEvent)
        } else {
            Ok::<(), SubtaskDropError>(())
        },
{
    if !resolved {
        return Err(SubtaskDropError::NotResolved);
    }
    if taken_event.is_some() {
        return Err(SubtaskDropError::UndeliveredEvent);
    }
    Ok(())
}

/// A task named as a subtask is not in the table.
#[derive(Clone, Copy, Debug, PartialEq, Eq, Structural)]
pub struct UnknownTask(pub u32);

/// When a guest task is disposed of, its pending subtasks are handed to its
/// own caller: each of them gets `caller` as its caller. Fails, changing
/// nothing, if a subtask is not in the table.
pub fn reparent_subtasks(tasks: &mut HashMap<u32, TaskLink>, subtasks: &Vec<u32>, caller: Caller) -> (r:
    Result<(), UnknownTask>)
    ensures
        match r {
            Ok(()) => {
                &&& forall|i: int| 0 <= i < subtasks@.len() ==> old(tasks)@.contains_key(#[trigger] subtasks@[i])
                &&& final(tasks)@.dom() == old(tasks)@.dom()
                &&& forall|t: u32| #[trigger] final(tasks)@.contains_key(t) ==> final(tasks)@[t] == if subtasks@.contains(t) {
                    TaskLink { instance: old(tasks)@[t].instance, caller }
                } else {
                    old(tasks)@[t]
                }
            },
            Err(UnknownTask(t)) => subtasks@.contains(t) && !old(tasks)@.contains_key(t)
                && final(tasks)@ == old(tasks)@,
        },
{
    let mut i: usize = 0;
    while i < subtasks.len()
        invariant
            i <= subtasks@.len(),
            tasks@ == old(tasks)@,
            forall|j: int| 0 <= j < i ==> tasks@.contains_key(#[trigger] subtasks@[j]),
        decreases subtasks@.len() - i,
    {
        if !tasks.contains_key(&subtasks[i]) {
            return Err(UnknownTask(subtasks[i]));
        }
        i = i + 1;
    }
    let mut k: usize = 0;
    while k < subtasks.len()
        invariant
            k <= subtasks@.len(),
            forall|j: int| 0 <= j < subtasks@.len() ==> old(tasks)@.contains_key(#[trigger] subtasks@[j]),
            tasks@.dom() == old(tasks)@.dom(),
            forall|t: u32| #[trigger] tasks@.contains_key(t) ==> tasks@[t] == if subtasks@.take(k as int).contains(t) {
                TaskLink { instance: old(tasks)@[t].instance, caller }
            } else {
                old(tasks)@[t]
            },
        decreases subtasks@.len() - k,
    {
        let s = subtasks[k];
        let instance = match tasks.get(&s) {
            Some(link) => link.instance,
            None => return Err(UnknownTask(s)),
        };
        proof {
            assert(instance == old(tasks)@[s].instance) by {
                if subtasks@.take(k as int).contains(s) {
                } else {
                }
            }
        }
        tasks.insert(s, TaskLink { instance, caller });
        proof {
            assert forall|t: u32| #[trigger] tasks@.contains_key(t) implies tasks@[t] == if subtasks@.take(k + 1).contains(t) {
                TaskLink { instance: old(tasks)@[t].instance, caller }
            } else {
                old(tasks)@[t]
            } by {
                assert(subtasks@.take(k + 1) =~= subtasks@.take(k as int).push(s));
                if t == s {
                    assert(subtasks@.take(k + 1)[k as int] == s);
                } else {
                    assert(subtasks@.take(k + 1).contains(t) == subtasks@.take(k as int).contains(t));
                }
            }
            assert(tasks@.dom() =~= old(tasks)@.dom());
        }
        k = k + 1;
    }
    proof {
        assert(subtasks@.take(subtasks@.len() as int) =~= subtasks@);
    }
    Ok(())
}

} // verus!
