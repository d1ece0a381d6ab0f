//! Guest-to-guest calls: where the callee's parameters come from and its
//! result goes, how a queued call is started and finished, and when a caller
//! stops waiting for the callee to start.
use vstd::prelude::*;

use crate::abi::{packed, Status};
use crate::guest_task::{enter_check, may_enter, Caller, TaskLink};
use crate::waitables::KeySet;
use std::collections::HashMap;

verus! {

/// The most core values a call's parameters flatten to before they are
/// passed through linear memory instead.
pub const MAX_FLAT_PARAMS: usize = 16;

/// The most core values a call's results flatten to before they are passed
/// through linear memory instead.
pub const MAX_FLAT_RESULTS: usize = 1;

/// How a guest caller lowered the import it calls through, and the core
/// values it passed.
#[derive(Clone, Debug)]
pub enum CallerInfo<P> {
    /// An async-lowered import. With a result, the last parameter is the
    /// address the result is written to.
    Async { params: Vec<P>, has_result: bool },
    /// A sync-lowered import returning `result_count` core values.
    Sync { params: Vec<P>, result_count: u32 },
}

/// Where the callee's result goes.
#[derive(Clone, Copy, Debug, PartialEq, Eq)]
pub enum ResultInfo<P> {
    /// Into linear memory, at the address the caller passed last.
    Heap { results: P },
    /// Onto the caller's stack, as `result_count` core values.
    Stack { result_count: u32 },
}

/// The core values a caller passed.
pub open spec fn caller_params<P>(info: CallerInfo<P>) -> Seq<P> {
    match info {
        CallerInfo::Async { params, .. } => params@,
        CallerInfo::Sync { params, .. } => params@,
    }
}

/// Whether the result goes through linear memory: an async caller with a
/// result, or a sync caller whose results do not flatten to few enough
/// values.
pub open spec fn results_in_memory<P>(info: CallerInfo<P>) -> bool {
    match info {
        CallerInfo::Async { has_result, .. } => has_result,
        CallerInfo::Sync { result_count, .. } => result_count > MAX_FLAT_RESULTS,
    }
}

/// Where the result of a call made through `info` goes.
pub open spec fn result_info_of<P>(info: CallerInfo<P>) -> ResultInfo<P> {
    if results_in_memory(info) {
        ResultInfo::Heap { results: caller_params(info).last() }
    } else {
        match info {
            CallerInfo::Async { .. } => ResultInfo::Stack { result_count: 0 },
            CallerInfo::Sync { result_count, .. } => ResultInfo::Stack { result_count },
        }
    }
}

/// The parameters forwarded to the callee: all of them, but for the result
/// address of an async caller.
pub open spec fn forwarded_params<P>(info: CallerInfo<P>) -> Seq<P> {
    match info {
        CallerInfo::Async { params, has_result } => if has_result {
            params@.drop_last()
        } else {
            params@
        },
        CallerInfo::Sync { params, .. } => params@,
    }
}

/// Decides where the result of a call made through `info` goes. A result
/// passed through memory needs the caller's result address, its last
/// parameter.
pub fn result_info<P: Copy>(info: &CallerInfo<P>) -> (r: ResultInfo<P>)
    requires
        results_in_memory(*info) ==> caller_params(*info).len() > 0,
    ensures
        r == result_info_of(*info),
{
    match info {
        CallerInfo::Async { params, has_result } => {
            if *has_result {
                ResultInfo::Heap { results: params[params.len() - 1] }
            } else {
                ResultInfo::Stack { result_count: 0 }
            }
        },
        CallerInfo::Sync { params, result_count } => {
            if (*result_count as usize) > MAX_FLAT_RESULTS {
                ResultInfo::Heap { results: params[params.len() - 1] }
            } else {
                ResultInfo::Stack { result_count: *result_count }
            }
        },
    }
}

/// The core values handed to the callee's parameter adapter. An async
/// caller with a result passes at least its result address, and at most
/// `MAX_FLAT_PARAMS` values are forwarded.
pub fn forward_params<P: Copy>(info: &CallerInfo<P>) -> (r: Vec<P>)
    requires
        *info matches CallerInfo::Async { params, has_result } ==> (has_result ==> params@.len() > 0),
        forwarded_params(*info).len() <= MAX_FLAT_PARAMS,
    ensures
        r@ == forwarded_params(*info),
{
    let (params, skip_last) = match info {
        CallerInfo::Async { params, has_result } => (params, *has_result),
        CallerInfo::Sync { params, .. } => (params, false),
    };
    let count: usize = if skip_last {
        params.len() - 1
    } else {
        params.len()
    };
    let mut out: Vec<P> = Vec::new();
    let mut i: usize = 0;
    while i < count
        invariant
            count <= params@.len(),
            i <= count,
            out@ == params@.take(i as int),
        decreases count - i,
    {
        out.push(params[i]);
        proof {
            assert(params@.take(i + 1) =~= params@.take(i as int).push(params@[i as int]));
        }
        i = i + 1;
    }
    proof {
        if skip_last {
            assert(params@.take(count as int) =~= params@.drop_last());
        } else {
            assert(params@.take(count as int) =~= params@);
        }
    }
    out
}

/// The arguments of the callee's result adapter: the core values the callee
/// returned, followed by the caller's result address where the result goes
/// through memory.
pub fn return_args<P: Copy>(info: &ResultInfo<P>, returned: &Vec<P>) -> (r: Vec<P>)
    ensures
        r@ == match *info {
            ResultInfo::Heap { results } => returned@.push(results),
            ResultInfo::Stack { .. } => returned@,
        },
{
    let mut args: Vec<P> = Vec::new();
    let mut i: usize = 0;
    while i < returned.len()
        invariant
            i <= returned@.len(),
            args@ == returned@.take(i as int),
        decreases returned@.len() - i,
    {
        args.push(returned[i]);
        proof {
            assert(returned@.take(i + 1) =~= returned@.take(i as int).push(returned@[i as int]));
        }
        i = i + 1;
    }
    proof {
        assert(returned@.take(returned@.len() as int) =~= returned@);
    }
    if let ResultInfo::Heap { results } = info {
        args.push(*results);
    }
    args
}

/// The single flat result among `count` core values: none for zero, the
/// first stored value for one.
pub fn single_result<P: Copy>(count: usize, storage: &Vec<P>) -> (r: Option<P>)
    requires
        count <= MAX_FLAT_RESULTS,
        count == 1 ==> storage@.len() > 0,
    ensures
        r == if count == 0 {
            None
        } else {
            Some(storage@[0])
        },
{
    if count == 0 {
        None
    } else {
        Some(storage[0])
    }
}

/// What a sync caller keeps of the callee's result: the value returned on
/// its stack, if any; nothing where the result went through memory.
pub fn sync_result<P: Copy>(info: &ResultInfo<P>, storage: &Vec<P>) -> (r: Option<P>)
    requires
        *info matches ResultInfo::Stack { result_count } ==> result_count <= MAX_FLAT_RESULTS && (
        result_count == 1 ==> storage@.len() > 0),
    ensures
        r == match *info {
            ResultInfo::Heap { .. } => None,
            ResultInfo::Stack { result_count } => if result_count == 0 {
                None
            } else {
                Some(storage@[0])
            },
        },
{
    match info {
        ResultInfo::Heap { .. } => None,
        ResultInfo::Stack { result_count } => single_result(*result_count as usize, storage),
    }
}

/// How a queued call into an export runs.
#[derive(Clone, Copy, Debug, PartialEq, Eq, Structural)]
pub enum StartKind {
    /// An async-lifted export with a callback.
    Callback,
    /// An async-lifted export without a callback, on a fiber of its own.
    Stackful,
    /// A sync-lifted export.
    Sync,
}

impl StartKind {
    /// Whether the callee's instance is marked as entered for the duration
    /// of the call: for all but a stackful async export.
    pub fn enters_instance(self) -> (r: bool)
        ensures
            r == !(self is Stackful),
    {
        !matches!(self, StartKind::Stackful)
    }
}

/// How a call into an export runs. Only an async export has a callback.
pub fn start_kind(has_callback: bool, is_async: bool) -> (r: StartKind)
    requires
        has_callback ==> is_async,
    ensures
        r == if has_callback {
            StartKind::Callback
        } else if is_async {
            StartKind::Stackful
        } else {
            StartKind::Sync
        },
{
    if has_callback {
        StartKind::Callback
    } else if is_async {
        StartKind::Stackful
    } else {
        StartKind::Sync
    }
}

/// A task finished without calling `task.return` or `task.cancel`.
#[derive(Clone, Copy, Debug, PartialEq, Eq, Structural)]
pub struct NoAsyncResult;

/// What follows once the callee's core function has returned.
#[derive(Clone, Copy, Debug, PartialEq, Eq, Structural)]
pub enum AfterStart {
    /// The value returned is a callback code, to be acted on.
    HandleCallbackCode,
    /// Nothing: the task delivered its result through `task.return`.
    Finished,
    /// Lift the result, run the post-return function and complete the task.
    LiftResult,
}

/// What follows a call of kind `kind` once the callee's core function has
/// returned; `result_pending` says whether the task still owes its result.
/// A stackful async export that returns still owing its result traps.
pub fn after_start(kind: StartKind, result_pending: bool) -> (r: Result<AfterStart, NoAsyncResult>)
    ensures
        r == match kind {
            StartKind::Callback => Ok(AfterStart::HandleCallbackCode),
            StartKind::Stackful => if result_pending {
                Err(NoAsyncResult)
            } else {
                Ok(AfterStart::Finished)
            },
            StartKind::Sync => Ok(AfterStart::LiftResult),
        },
{
    match kind {
        StartKind::Callback => Ok(AfterStart::HandleCallbackCode),
        StartKind::Stackful => if result_pending {
            Err(NoAsyncResult)
        } else {
            Ok(AfterStart::Finished)
        },
        StartKind::Sync => Ok(AfterStart::LiftResult),
    }
}

/// What a caller does on learning the status of the subtask it started.
#[derive(Clone, Copy, Debug, PartialEq, Eq, Structural)]
pub enum StartWait {
    /// The callee returned: stop waiting, with no handle.
    Returned,
    /// Stop waiting and hand the async caller a handle for the subtask.
    Handle,
    /// A sync caller waits until the callee returns.
    KeepWaiting,
}

/// The caller's next step on learning `status` of its subtask.
pub fn start_wait_step(status: Status, async_caller: bool) -> (r: StartWait)
    ensures
        r == if status == Status::Returned {
            StartWait::Returned
        } else if async_caller {
            StartWait::Handle
        } else {
            StartWait::KeepWaiting
        },
{
    if status == Status::Returned {
        StartWait::Returned
    } else if async_caller {
        StartWait::Handle
    } else {
        StartWait::KeepWaiting
    }
}

/// The result a sync caller of an async export receives: the value the
/// callee stashed through `task.return`, which may be none; a callee that
/// stashed nothing finished without returning.
pub fn take_sync_result<P>(stashed: Option<Option<P>>) -> (r: Result<Option<P>, NoAsyncResult>)
    ensures
        r == match stashed {
            Some(v) => Ok(v),
            None => Err(NoAsyncResult),
        },
{
    match stashed {
        Some(v) => Ok(v),
        None => Err(NoAsyncResult),
    }
}

/// Where the arguments and results of a sync call into a host function
/// live: each flattens onto the stack if it fits in few enough core values,
/// else it goes through linear memory at an address passed on the stack.
#[derive(Clone, Copy, Debug, PartialEq, Eq, Structural)]
pub enum StorageLayout {
    /// Both on the stack.
    Direct,
    /// Parameters on the stack, results through memory.
    ResultsIndirect,
    /// Parameters through memory, results on the stack.
    ParamsIndirect,
    /// Both through memory.
    Indirect,
}

/// The layout for parameters and results that flatten to `param_flat` and
/// `result_flat` core values.
pub fn storage_layout(param_flat: usize, result_flat: usize) -> (r: StorageLayout)
    ensures
        r == if param_flat <= MAX_FLAT_PARAMS {
            if result_flat <= MAX_FLAT_RESULTS {
                StorageLayout::Direct
            } else {
                StorageLayout::ResultsIndirect
            }
        } else if result_flat <= MAX_FLAT_RESULTS {
            StorageLayout::ParamsIndirect
        } else {
            StorageLayout::Indirect
        },
{
    if param_flat <= MAX_FLAT_PARAMS {
        if result_flat <= MAX_FLAT_RESULTS {
            StorageLayout::Direct
        } else {
            StorageLayout::ResultsIndirect
        }
    } else if result_flat <= MAX_FLAT_RESULTS {
        StorageLayout::ParamsIndirect
    } else {
        StorageLayout::Indirect
    }
}

/// Where the result address sits among the core values of a sync call:
/// after the flat parameters, or after the single parameter address when
/// the parameters go through memory (`flat_params` is none).
pub fn result_address_index(flat_params: Option<usize>) -> (r: usize)
    ensures
        r == match flat_params {
            Some(n) => n,
            None => 1,
        },
{
    match flat_params {
        Some(n) => n,
        None => 1,
    }
}

/// The status word an async-lowered call into the host returns: `Started`
/// with the handle of the host task while it runs, `Returned` once it is
/// done.
pub fn host_call_status(task: Option<u32>) -> (r: u32)
    requires
        task matches Some(t) ==> t < 0x1000_0000,
    ensures
        r == packed(
            if task is Some {
                Status::Started
            } else {
                Status::Returned
            },
            task,
        ),
{
    match task {
        Some(t) => Status::Started.pack(Some(t)),
        None => Status::Returned.pack(None),
    }
}

/// The link of a task started by a guest-to-guest call: it runs in the
/// callee's instance, called by the current task of the caller's instance.
pub open spec fn call_link(caller: u32, caller_instance: u32, callee_instance: u32) -> TaskLink {
    TaskLink { instance: callee_instance, caller: Caller::Guest { task: caller, instance: caller_instance } }
}

/// The callee's instance is already on the chain of callers of the new
/// task, so the call may not enter it.
#[derive(Clone, Copy, Debug, PartialEq, Eq, Structural)]
pub struct CannotEnterComponent;

/// The bookkeeping with which a guest-to-guest call is prepared. The current
/// task is the caller; the new task `new_task` is entered in the task table
/// with its link, and the current task is cleared. If the callee's instance
/// may not be entered (see `may_enter`), the call traps, leaving the new
/// task in the table and no current task. Otherwise the caller gains the
/// new task as a subtask, and the new task becomes the current one.
pub fn register_call(
    tasks: &mut HashMap<u32, TaskLink>,
    current: &mut Option<u32>,
    caller_subtasks: &mut KeySet,
    new_task: u32,
    caller_instance: u32,
    callee_instance: u32,
) -> (r: Result<(), CannotEnterComponent>)
    requires
        *old(current) is Some,
        old(caller_subtasks).wf(),
        exists|fuel: nat|
            enter_check(
                old(tasks)@.insert(
                    new_task,
                    call_link((*old(current))->0, caller_instance, callee_instance),
                ),
                callee_instance,
                new_task,
                fuel,
            ) is Some,
    ensures
        final(tasks)@ == old(tasks)@.insert(
            new_task,
            call_link((*old(current))->0, caller_instance, callee_instance),
        ),
        forall|fuel: nat| #[trigger]
            enter_check(final(tasks)@, callee_instance, new_task, fuel) matches Some(b) ==> b == (
            r is Ok),
        final(caller_subtasks).wf(),
        r is Err ==> *final(current) is None && final(caller_subtasks).keys() == old(
            caller_subtasks,
        ).keys(),
        r is Ok ==> *final(current) == Some(new_task) && final(caller_subtasks).keys() == old(
            caller_subtasks,
        ).keys().insert(new_task as u64),
{
    let caller = match current.take() {
        Some(c) => c,
        None => return Err(CannotEnterComponent),
    };
    tasks.insert(
        new_task,
        TaskLink { instance: callee_instance, caller: Caller::Guest { task: caller, instance: caller_instance } },
    );
    proof {
        assert(tasks@.contains_key(new_task));
        assert(tasks@[new_task].instance == callee_instance);
    }
    if !may_enter(tasks, new_task) {
        return Err(CannotEnterComponent);
    }
    caller_subtasks.insert(new_task as u64);
    *current = Some(new_task);
    Ok(())
}

/// What a guest-to-guest start answers its caller, once it stops waiting:
/// the callee's status packed with the handle of its subtask (present
/// exactly when the callee has not returned); the caller's task becomes the
/// current one again.
pub fn finish_start(current: &mut Option<u32>, caller: u32, status: Status, handle: Option<u32>) -> (r:
    u32)
    requires
        (status == Status::Returned) == handle.is_none(),
        handle matches Some(h) ==> h < 0x1000_0000,
    ensures
        r == packed(status, handle),
        *final(current) == Some(caller),
{
    *current = Some(caller);
    status.pack(handle)
}

/// What the first poll of an async-lowered call into the host leads to.
#[derive(Clone, Copy, Debug, PartialEq, Eq, Structural)]
pub enum FirstPollAction {
    /// The call finished at once: its result is lowered, the host task is
    /// deleted, and the caller gets no handle (status `Returned`).
    LowerAndDelete,
    /// The call is pending: its future joins those the event loop polls, and
    /// the caller gets a handle for the host task (status `Started`).
    QueueWithHandle,
}

/// The action after the first poll of an async host call.
pub fn first_poll_action(ready: bool) -> (r: FirstPollAction)
    ensures
        r == if ready {
            FirstPollAction::LowerAndDelete
        } else {
            FirstPollAction::QueueWithHandle
        },
{
    if ready {
        FirstPollAction::LowerAndDelete
    } else {
        FirstPollAction::QueueWithHandle
    }
}

} // verus!
