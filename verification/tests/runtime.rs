use std::collections::HashMap;
use std::sync::atomic::{AtomicUsize, Ordering};
use std::sync::Arc;
use std::task::{Wake, Waker};

use wasip3::abi::{Event, Status, CALLBACK_EXIT, CALLBACK_POLL, CALLBACK_WAIT, CALLBACK_YIELD};
use wasip3::abort::AbortWrapper;
use wasip3::error_contexts::{ErrorContextError, ErrorContextRefs};
use wasip3::guest_task::{
    check_subtask_drop, check_task_cancel, check_task_return, may_enter, partition_pending,
    reparent_subtasks, Caller, PendingCall, SubtaskDropError, TaskError, TaskLink, UnknownTask,
    cancel_step, decide_callback, subtask_cancel_result, AlreadyDelivered, CallbackAction,
    CallbackError, CancelStep, InstanceState, TaskContext, TaskView,
};
use wasip3::tasks::TaskTable;

struct CountingWaker(AtomicUsize);

impl Wake for CountingWaker {
    fn wake(self: Arc<Self>) {
        self.0.fetch_add(1, Ordering::SeqCst);
    }
}

#[test]
fn aborting_a_polled_future_wakes_its_task() {
    let counter = Arc::new(CountingWaker(AtomicUsize::new(0)));
    let waker = Waker::from(counter.clone());
    let mut w = AbortWrapper::Polled { future: 5u32, waker };
    assert!(w.abort().is_some());
    assert!(matches!(w, AbortWrapper::Aborted));
    assert_eq!(counter.0.load(Ordering::SeqCst), 1);
    assert!(w.abort().is_none());
    assert_eq!(counter.0.load(Ordering::SeqCst), 1);
    let mut unpolled = AbortWrapper::Unpolled(1u8);
    assert!(unpolled.abort().is_none());
    assert!(matches!(unpolled, AbortWrapper::Aborted));
}

#[test]
fn aborting_an_unpolled_future_wakes_no_one() {
    let mut w = AbortWrapper::Unpolled(1u8);
    assert!(w.take_waker().is_none());
    assert!(matches!(w, AbortWrapper::Aborted));
    let mut p = AbortWrapper::Polled { future: 2u8, waker: Waker::noop().clone() };
    assert!(p.take_waker().is_some());
    assert!(matches!(p, AbortWrapper::Aborted));
}

fn task(awaiting_result: bool, caller_is_host: bool, event_pending: bool) -> TaskView {
    TaskView { awaiting_result, caller_is_host, event_pending }
}

#[test]
fn exit_before_returning_is_refused() {
    let d = decide_callback(CALLBACK_EXIT, task(true, true, false), true, None, false);
    assert!(!d.notify_started);
    assert_eq!(d.action, Err(CallbackError::NoAsyncResult));
}

#[test]
fn exit_after_returning_ends_the_task() {
    let d = decide_callback(CALLBACK_EXIT, task(false, true, false), true, None, false);
    assert_eq!(d.action, Ok(CallbackAction::DeleteTask));
    let d = decide_callback(CALLBACK_EXIT, task(false, false, false), false, None, false);
    assert_eq!(d.action, Ok(CallbackAction::DropCallback));
}

#[test]
fn first_code_of_a_running_task_notifies_its_start() {
    let d = decide_callback(CALLBACK_YIELD, task(true, false, false), true, None, false);
    assert!(d.notify_started);
    assert_eq!(d.action, Ok(CallbackAction::Yield));
    let d = decide_callback(CALLBACK_YIELD, task(true, false, false), false, None, false);
    assert!(!d.notify_started);
}

#[test]
fn wait_and_poll_on_a_waitable_set() {
    let code = CALLBACK_WAIT | (4 << 4);
    let d = decide_callback(code, task(true, false, false), false, Some(40), false);
    assert_eq!(d.action, Ok(CallbackAction::Wait { set: 40 }));
    let d = decide_callback(code, task(true, false, false), false, Some(40), true);
    assert_eq!(d.action, Ok(CallbackAction::DeliverNow { set: 40 }));
    let code = CALLBACK_POLL | (4 << 4);
    let d = decide_callback(code, task(true, false, false), false, Some(40), false);
    assert_eq!(d.action, Ok(CallbackAction::PollLater { set: 40 }));
    let d = decide_callback(code, task(true, false, true), false, Some(40), false);
    assert_eq!(d.action, Ok(CallbackAction::DeliverNow { set: 40 }));
}

#[test]
fn bad_callback_codes_are_refused() {
    let d = decide_callback(CALLBACK_WAIT, task(true, false, false), false, Some(1), false);
    assert_eq!(d.action, Err(CallbackError::InvalidWaitableSet));
    let d = decide_callback(CALLBACK_POLL | 0x10, task(true, false, false), false, None, false);
    assert_eq!(d.action, Err(CallbackError::InvalidWaitableSet));
    let d = decide_callback(9, task(true, false, false), false, None, false);
    assert_eq!(d.action, Err(CallbackError::UnsupportedCode(9)));
}

#[test]
fn subtask_cancel_reads_the_terminal_status() {
    assert_eq!(
        subtask_cancel_result(Some(Event::Subtask { status: Status::Returned })),
        Ok(2)
    );
    assert_eq!(
        subtask_cancel_result(Some(Event::Subtask { status: Status::ReturnCancelled })),
        Ok(4)
    );
    assert_eq!(
        subtask_cancel_result(Some(Event::Subtask { status: Status::Started })),
        Err(AlreadyDelivered)
    );
    assert_eq!(subtask_cancel_result(None), Err(AlreadyDelivered));
    assert_eq!(subtask_cancel_result(Some(Event::Cancelled)), Err(AlreadyDelivered));
}

#[test]
fn cancel_steps() {
    assert_eq!(cancel_step(true, true), CancelStep::DropPending);
    assert_eq!(cancel_step(false, true), CancelStep::SendCancel);
    assert_eq!(cancel_step(false, false), CancelStep::ReadStatus);
}

#[test]
fn context_slots() {
    let mut cx = TaskContext::new();
    assert_eq!((cx.get(0), cx.get(1)), (0, 0));
    cx.set(1, 99);
    assert_eq!((cx.get(0), cx.get(1)), (0, 99));
    cx.set(0, 7);
    assert_eq!((cx.get(0), cx.get(1)), (7, 99));
}

#[test]
fn backpressure_and_entering() {
    let mut s = InstanceState::default();
    assert!(!s.set_backpressure(5));
    assert!(s.backpressure);
    assert!(s.set_backpressure(0));
    assert!(!s.backpressure);
    assert!(!s.set_backpressure(0));
    s.enter();
    assert!(s.do_not_enter);
    s.exit();
    assert!(!s.do_not_enter);
}

#[test]
fn task_table_reuses_freed_ids_last_freed_first() {
    let mut t = TaskTable::new();
    assert_eq!(t.push("a"), Some(0));
    assert_eq!(t.push("b"), Some(1));
    assert_eq!(t.push("c"), Some(2));
    assert_eq!(t.remove(0), Some("a"));
    assert_eq!(t.remove(2), Some("c"));
    assert_eq!(t.remove(2), None);
    assert_eq!(t.push("d"), Some(2));
    assert_eq!(t.push("e"), Some(0));
    assert_eq!(t.push("f"), Some(3));
    assert_eq!(t.remove(1), Some("b"));
}

#[test]
fn error_context_lives_until_its_last_reference_is_dropped() {
    let mut refs = ErrorContextRefs::new();
    refs.create(1, 10, "boom".to_string());
    assert_eq!(refs.global_count(10), 1);
    assert_eq!(refs.message(10).map(|m| m.as_str()), Some("boom"));
    assert_eq!(refs.transfer(1, 10, 2), Ok(()));
    assert_eq!(refs.transfer(2, 10, 2), Ok(()));
    assert_eq!(refs.global_count(10), 3);
    assert_eq!(refs.drop_ref(2, 10), Ok(None));
    assert_eq!(refs.drop_ref(1, 10), Ok(None));
    assert_eq!(refs.global_count(10), 1);
    assert_eq!(refs.drop_ref(2, 10), Ok(Some("boom".to_string())));
    assert_eq!(refs.global_count(10), 0);
    assert!(refs.message(10).is_none());
}

#[test]
fn error_context_operations_without_a_reference_are_refused() {
    let mut refs = ErrorContextRefs::new();
    assert_eq!(refs.drop_ref(1, 5), Err(ErrorContextError::UnknownHandle));
    refs.create(1, 5, String::new());
    assert_eq!(refs.transfer(3, 5, 1), Err(ErrorContextError::UnknownHandle));
    assert_eq!(refs.drop_ref(3, 5), Err(ErrorContextError::UnknownHandle));
    assert_eq!(refs.global_count(5), 1);
    assert_eq!(refs.drop_ref(1, 5), Ok(Some(String::new())));
    refs.create(2, 5, "again".to_string());
    assert_eq!(refs.global_count(5), 1);
}

#[test]
fn error_contexts_are_counted_separately() {
    let mut refs = ErrorContextRefs::new();
    refs.create(0, 1, "one".to_string());
    refs.create(0, 2, "two".to_string());
    assert_eq!(refs.drop_ref(0, 1), Ok(Some("one".to_string())));
    assert_eq!(refs.message(2).map(|m| m.as_str()), Some("two"));
    assert_eq!(refs.global_count(2), 1);
}

fn pending(task: u32, starts_task: bool) -> PendingCall<&'static str> {
    PendingCall { task, starts_task, kind: if starts_task { "start" } else { "deliver" } }
}

#[test]
fn calls_wait_for_backpressure_and_reentrance() {
    let free = InstanceState { backpressure: false, do_not_enter: false };
    let pressed = InstanceState { backpressure: true, do_not_enter: false };
    let entered = InstanceState { backpressure: false, do_not_enter: true };
    assert!(free.call_ready(true));
    assert!(free.call_ready(false));
    assert!(!pressed.call_ready(true));
    assert!(pressed.call_ready(false));
    assert!(!entered.call_ready(false));
    assert!(!entered.call_ready(true));
}

#[test]
fn pending_calls_are_partitioned_in_order() {
    let pressed = InstanceState { backpressure: true, do_not_enter: false };
    let calls = vec![pending(1, true), pending(2, false), pending(3, true), pending(4, false)];
    let (ready, waiting) = partition_pending(pressed, calls);
    assert_eq!(ready.iter().map(|c| c.task).collect::<Vec<_>>(), vec![2, 4]);
    assert_eq!(waiting.iter().map(|c| c.task).collect::<Vec<_>>(), vec![1, 3]);
    assert_eq!(waiting[0].kind, "start");
    let free = InstanceState::default();
    let (ready, waiting) = partition_pending(free, waiting);
    assert_eq!(ready.len(), 2);
    assert!(waiting.is_empty());
}

#[test]
fn task_return_and_cancel_checks() {
    assert_eq!(check_task_return(true, 3, 3, Some(8), Some(8), 0, 0), Ok(()));
    assert_eq!(check_task_return(true, 3, 3, None, Some(8), 0, 0), Ok(()));
    assert_eq!(check_task_return(false, 3, 3, None, None, 0, 0), Err(TaskError::AlreadyCompleted));
    assert_eq!(check_task_return(true, 3, 4, None, None, 0, 0), Err(TaskError::SignatureMismatch));
    assert_eq!(check_task_return(true, 3, 3, Some(8), None, 0, 0), Err(TaskError::SignatureMismatch));
    assert_eq!(check_task_return(true, 3, 3, Some(8), Some(9), 0, 0), Err(TaskError::SignatureMismatch));
    assert_eq!(check_task_return(true, 3, 3, None, None, 1, 0), Err(TaskError::SignatureMismatch));
    assert_eq!(check_task_cancel(true, true), Ok(()));
    assert_eq!(check_task_cancel(false, true), Err(TaskError::NotCancelled));
    assert_eq!(check_task_cancel(true, false), Err(TaskError::AlreadyCompleted));
}

#[test]
fn reentering_an_instance_on_the_call_chain_is_refused() {
    let mut tasks = HashMap::new();
    tasks.insert(1, TaskLink { instance: 10, caller: Caller::Host });
    tasks.insert(2, TaskLink { instance: 20, caller: Caller::Guest { task: 1, instance: 10 } });
    tasks.insert(3, TaskLink { instance: 10, caller: Caller::Guest { task: 2, instance: 20 } });
    tasks.insert(4, TaskLink { instance: 20, caller: Caller::Guest { task: 2, instance: 20 } });
    assert!(may_enter(&tasks, 1));
    assert!(may_enter(&tasks, 2));
    assert!(!may_enter(&tasks, 3));
    assert!(!may_enter(&tasks, 4));
}

#[test]
fn subtask_drop_requires_resolution_and_no_pending_event() {
    assert_eq!(check_subtask_drop(false, None), Err(SubtaskDropError::NotResolved));
    assert_eq!(
        check_subtask_drop(false, Some(Event::Cancelled)),
        Err(SubtaskDropError::NotResolved)
    );
    assert_eq!(
        check_subtask_drop(true, Some(Event::Cancelled)),
        Err(SubtaskDropError::UndeliveredEvent)
    );
    assert_eq!(check_subtask_drop(true, None), Ok(()));
}

#[test]
fn disposing_a_task_hands_its_subtasks_to_its_caller() {
    let mut tasks: HashMap<u32, TaskLink> = HashMap::new();
    tasks.insert(1, TaskLink { instance: 10, caller: Caller::Host });
    tasks.insert(2, TaskLink { instance: 20, caller: Caller::Guest { task: 1, instance: 10 } });
    tasks.insert(3, TaskLink { instance: 30, caller: Caller::Guest { task: 1, instance: 10 } });
    tasks.insert(4, TaskLink { instance: 40, caller: Caller::Guest { task: 3, instance: 30 } });

    let before = tasks.clone();
    assert_eq!(reparent_subtasks(&mut tasks, &vec![2, 9], Caller::Host), Err(UnknownTask(9)));
    assert_eq!(tasks, before);

    assert_eq!(reparent_subtasks(&mut tasks, &vec![2, 3], Caller::Host), Ok(()));
    assert_eq!(tasks[&2], TaskLink { instance: 20, caller: Caller::Host });
    assert_eq!(tasks[&3], TaskLink { instance: 30, caller: Caller::Host });
    assert_eq!(tasks[&4], before[&4]);
    assert_eq!(tasks[&1], before[&1]);
    assert_eq!(tasks.len(), 4);
}

#[test]
fn an_aborted_future_is_never_polled_again() {
    let counter = Arc::new(CountingWaker(AtomicUsize::new(0)));
    let waker = Waker::from(counter.clone());
    let mut w = AbortWrapper::Unpolled(9u32);
    assert_eq!(w.take_for_poll(), Some(9));
    assert!(matches!(w, AbortWrapper::Aborted));
    w.after_poll(9, waker);
    assert!(matches!(w, AbortWrapper::Polled { future: 9, .. }));
    w.abort();
    assert_eq!(counter.0.load(Ordering::SeqCst), 1);
    assert_eq!(w.take_for_poll(), None);
}
