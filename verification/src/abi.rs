//! Integer encodings that the component-model async ABI hands to guests.

use vstd::prelude::*;

verus! {

/// Returned by an async intrinsic that has not yet completed.
pub const BLOCKED: u32 = 0xffff_ffff;

/// Flag bit marking that the other end of a stream or future was closed.
pub const CLOSED: u32 = 0x8000_0000;

/// Event codes delivered to guests.
pub const EVENT_NONE: u32 = 0;
pub const EVENT_SUBTASK: u32 = 1;
pub const EVENT_STREAM_READ: u32 = 2;
pub const EVENT_STREAM_WRITE: u32 = 3;
pub const EVENT_FUTURE_READ: u32 = 4;
pub const EVENT_FUTURE_WRITE: u32 = 5;
pub const EVENT_CANCELLED: u32 = 6;

/// Callback codes returned by async-lifted exports and their callbacks.
pub const CALLBACK_EXIT: u32 = 0;
pub const CALLBACK_YIELD: u32 = 1;
pub const CALLBACK_WAIT: u32 = 2;
pub const CALLBACK_POLL: u32 = 3;

/// The state of a call, as the canonical ABI reports it (`CallState`).
#[derive(Clone, Copy, Debug, PartialEq, Eq, Structural)]
pub enum Status {
    Starting,
    Started,
    Returned,
    StartCancelled,
    ReturnCancelled,
}

/// The number by which the canonical ABI denotes each status.
pub open spec fn status_code(s: Status) -> u32 {
    match s {
        Status::Starting => 0,
        Status::Started => 1,
        Status::Returned => 2,
        Status::StartCancelled => 3,
        Status::ReturnCancelled => 4,
    }
}

/// The status whose code is `c`, if any.
pub open spec fn status_of_code(c: u32) -> Option<Status> {
    if c == 0 {
        Some(Status::Starting)
    } else if c == 1 {
        Some(Status::Started)
    } else if c == 2 {
        Some(Status::Returned)
    } else if c == 3 {
        Some(Status::StartCancelled)
    } else if c == 4 {
        Some(Status::ReturnCancelled)
    } else {
        None
    }
}

/// The value that `pack` produces: the waitable in the upper 28 bits and the
/// status in the low 4 bits.
pub open spec fn packed(s: Status, waitable: Option<u32>) -> int {
    match waitable {
        Some(w) => w * 16 + status_code(s),
        None => status_code(s) as int,
    }
}

impl Status {
    /// The canonical ABI number of this status.
    pub fn code(self) -> (r: u32)
        ensures
            r == status_code(self),
    {
        match self {
            Status::Starting => 0,
            Status::Started => 1,
            Status::Returned => 2,
            Status::StartCancelled => 3,
            Status::ReturnCancelled => 4,
        }
    }

    /// Packs this status and the optional `waitable` into the 32-bit result
    /// that the canonical ABI requires. A waitable is present exactly when the
    /// call has not yet returned, and it must fit in 28 bits.
    pub fn pack(self, waitable: Option<u32>) -> (r: u32)
        requires
            (self == Status::Returned) == waitable.is_none(),
            waitable matches Some(w) ==> w < 0x1000_0000,
        ensures
            r == packed(self, waitable),
    {
        let c = self.code();
        match waitable {
            Some(w) => {
                let r = (w << 4u32) | c;
                assert(r == w * 16 + c) by (bit_vector)
                    requires
                        w < 0x1000_0000u32,
                        c < 16u32,
                        r == (w << 4u32) | c,
                ;
                r
            },
            None => c,
        }
    }
}

/// Splits a packed status word into its status code and waitable.
pub fn unpack_status(word: u32) -> (r: (u32, u32))
    ensures
        r.0 == word % 16,
        r.1 == word / 16,
{
    let code = word & 0xF;
    let waitable = word >> 4u32;
    assert(code == word % 16 && waitable == word / 16) by (bit_vector)
        requires
            code == word & 0xF,
            waitable == word >> 4u32,
    ;
    (code, waitable)
}

/// Splits a callback code into the code proper (low 4 bits) and the
/// waitable-set handle (upper 28 bits).
pub fn unpack_callback_code(code: u32) -> (r: (u32, u32))
    ensures
        r.0 == code % 16,
        r.1 == code / 16,
{
    unpack_status(code)
}

/// Unpacking what `pack` produced gives back the status and the waitable.
pub proof fn lemma_pack_unpack(s: Status, waitable: Option<u32>)
    requires
        (s == Status::Returned) == waitable.is_none(),
        waitable matches Some(w) ==> w < 0x1000_0000,
    ensures
        0 <= packed(s, waitable) <= u32::MAX,
        status_of_code((packed(s, waitable) % 16) as u32) == Some(s),
        packed(s, waitable) / 16 == match waitable {
            Some(w) => w as int,
            None => 0,
        },
{
    let c = status_code(s);
    match waitable {
        Some(w) => {
            assert((w * 16 + c) % 16 == c) by (nonlinear_arith)
                requires
                    c < 16,
            ;
            assert((w * 16 + c) / 16 == w) by (nonlinear_arith)
                requires
                    c < 16,
            ;
        },
        None => {},
    }
}

/// An event delivered to a guest task, with its payload.
#[derive(Clone, Copy, Debug)]
pub enum Event {
    NoEvent,
    Cancelled,
    Subtask { status: Status },
    StreamRead { count: u32, pending: Option<(u32, u32)> },
    StreamWrite { count: u32, pending: Option<(u32, u32)> },
    FutureRead { count: u32, pending: Option<(u32, u32)> },
    FutureWrite { count: u32, pending: Option<(u32, u32)> },
}

/// The event code and payload word of an event.
pub open spec fn event_parts(e: Event) -> (u32, u32) {
    match e {
        Event::NoEvent => (EVENT_NONE, 0),
        Event::Cancelled => (EVENT_CANCELLED, 0),
        Event::Subtask { status } => (EVENT_SUBTASK, status_code(status)),
        Event::StreamRead { count, .. } => (EVENT_STREAM_READ, count),
        Event::StreamWrite { count, .. } => (EVENT_STREAM_WRITE, count),
        Event::FutureRead { count, .. } => (EVENT_FUTURE_READ, count),
        Event::FutureWrite { count, .. } => (EVENT_FUTURE_WRITE, count),
    }
}

impl Event {
    /// Lowers this event to the two core integers delivered to the guest.
    pub fn parts(self) -> (r: (u32, u32))
        ensures
            r == event_parts(self),
    {
        match self {
            Event::NoEvent => (EVENT_NONE, 0),
            Event::Cancelled => (EVENT_CANCELLED, 0),
            Event::Subtask { status } => (EVENT_SUBTASK, status.code()),
            Event::StreamRead { count, .. } => (EVENT_STREAM_READ, count),
            Event::StreamWrite { count, .. } => (EVENT_STREAM_WRITE, count),
            Event::FutureRead { count, .. } => (EVENT_FUTURE_READ, count),
            Event::FutureWrite { count, .. } => (EVENT_FUTURE_WRITE, count),
        }
    }
}

/// Why a guest pointer was refused.
#[derive(Clone, Copy, Debug, PartialEq, Eq, Structural)]
pub enum PointerError {
    NotAligned,
    SizeOverflow,
    OutOfBounds,
}

/// Where a pointer to a value of `size` bytes with alignment `align` lies
/// in a memory of `len` bytes: its offset, or why it is refused.
pub open spec fn inbounds(len: nat, ptr: u32, align: u32, size: usize) -> Result<usize, PointerError> {
    if ptr % align != 0 {
        Err(PointerError::NotAligned)
    } else if ptr + size > usize::MAX {
        Err(PointerError::SizeOverflow)
    } else if ptr + size > len {
        Err(PointerError::OutOfBounds)
    } else {
        Ok(ptr as usize)
    }
}

/// Checks that a guest pointer to a value of `size` bytes with alignment
/// `align` lies aligned and entirely inside `memory`, and returns it.
pub fn validate_inbounds(memory: &[u8], ptr: u32, align: u32, size: usize) -> (r: Result<
    usize,
    PointerError,
>)
    requires
        align > 0,
    ensures
        r == inbounds(memory@.len(), ptr, align, size),
{
    let p = ptr as usize;
    let a = align as usize;
    if p % a != 0 {
        return Err(PointerError::NotAligned);
    }
    let end = match p.checked_add(size) {
        Some(n) => n,
        None => return Err(PointerError::SizeOverflow),
    };
    if end > memory.len() {
        return Err(PointerError::OutOfBounds);
    }
    Ok(p)
}

/// The four bytes of `v`, least significant first.
pub open spec fn le_bytes(v: u32) -> Seq<u8> {
    seq![
        (v % 256) as u8,
        ((v / 256) % 256) as u8,
        ((v / 65536) % 256) as u8,
        ((v / 16777216) % 256) as u8,
    ]
}

/// A memory with `bytes` written over it from offset `at`.
pub open spec fn written(m: Seq<u8>, at: int, bytes: Seq<u8>) -> Seq<u8> {
    m.take(at) + bytes + m.skip(at + bytes.len())
}

/// The event code, waitable handle and payload word a guest receives for
/// a pending event on a waitable, or for no event.
pub open spec fn delivered(event: Option<(Event, u32)>) -> (u32, u32, u32) {
    match event {
        Some((e, handle)) => (event_parts(e).0, handle, event_parts(e).1),
        None => (EVENT_NONE, 0, 0),
    }
}

/// Delivers an event from `waitable-set.wait` or `waitable-set.poll`: the
/// waitable's handle and the payload word are written, little-endian, to
/// the 8 bytes at `payload` in guest memory (which must be 4-aligned and in
/// bounds), and the event code is returned. With no event, the code and
/// both words are 0.
pub fn deliver_event(memory: &mut Vec<u8>, payload: u32, event: Option<(Event, u32)>) -> (r: Result<
    u32,
    PointerError,
>)
    ensures
        match inbounds(old(memory)@.len(), payload, 4, 8) {
            Ok(at) => r == Ok::<u32, PointerError>(delivered(event).0) && final(memory)@
                == written(
                old(memory)@,
                at as int,
                le_bytes(delivered(event).1) + le_bytes(delivered(event).2),
            ),
            Err(e) => r == Err::<u32, PointerError>(e) && final(memory)@ == old(memory)@,
        },
{
    let (code, handle, word) = match event {
        Some((e, h)) => {
            let (c, w) = e.parts();
            (c, h, w)
        },
        None => (EVENT_NONE, 0u32, 0u32),
    };
    let at = match validate_inbounds(memory.as_slice(), payload, 4, 8) {
        Ok(at) => at,
        Err(e) => return Err(e),
    };
    let ghost before = memory@;
    memory.set(at, (handle % 256) as u8);
    memory.set(at + 1, ((handle / 256) % 256) as u8);
    memory.set(at + 2, ((handle / 65536) % 256) as u8);
    memory.set(at + 3, ((handle / 16777216) % 256) as u8);
    memory.set(at + 4, (word % 256) as u8);
    memory.set(at + 5, ((word / 256) % 256) as u8);
    memory.set(at + 6, ((word / 65536) % 256) as u8);
    memory.set(at + 7, ((word / 16777216) % 256) as u8);
    assert(memory@ =~= written(before, at as int, le_bytes(handle) + le_bytes(word)));
    Ok(code)
}

/// Which of `waitable-set.wait`, `waitable-set.poll` and `yield` a guest
/// called.
#[derive(Clone, Copy, Debug, PartialEq, Eq, Structural)]
pub enum CheckKind {
    Wait,
    Poll,
    Yield,
}

/// Why a waitable check traps.
#[derive(Clone, Copy, Debug, PartialEq, Eq, Structural)]
pub enum CheckError {
    /// The async variants are not supported.
    AsyncUnsupported,
    /// An async-lifted export with a callback may not wait.
    WaitWithCallback,
    /// The event could not be written to guest memory.
    Payload(PointerError),
}

/// What a waitable check does once the calling task has yielded.
#[derive(Clone, Copy, Debug, PartialEq, Eq, Structural)]
pub enum CheckStep {
    /// Wait until the task or the set has an event, then deliver it.
    SuspendThenDeliver,
    /// Deliver the event available, if any (none for a poll finding nothing).
    Deliver,
    /// Answer 0: a yield delivers nothing.
    Done,
}

/// The decision of a waitable check: the async variants trap at once;
/// after yielding, a wait from a task with a callback traps, a wait with
/// no event on the task or its set suspends first, and a yield answers 0.
pub fn waitable_check_step(async_: bool, kind: CheckKind, has_callback: bool, event_ready: bool) -> (r:
    Result<CheckStep, CheckError>)
    ensures
        r == if async_ {
            Err(CheckError::AsyncUnsupported)
        } else {
            match kind {
                CheckKind::Wait => if has_callback {
                    Err(CheckError::WaitWithCallback)
                } else if event_ready {
                    Ok::<CheckStep, CheckError>(CheckStep::Deliver)
                } else {
                    Ok(CheckStep::SuspendThenDeliver)
                },
                CheckKind::Poll => Ok(CheckStep::Deliver),
                CheckKind::Yield => Ok(CheckStep::Done),
            }
        },
{
    if async_ {
        return Err(CheckError::AsyncUnsupported);
    }
    match kind {
        CheckKind::Wait => if has_callback {
            Err(CheckError::WaitWithCallback)
        } else if event_ready {
            Ok(CheckStep::Deliver)
        } else {
            Ok(CheckStep::SuspendThenDeliver)
        },
        CheckKind::Poll => Ok(CheckStep::Deliver),
        CheckKind::Yield => Ok(CheckStep::Done),
    }
}

/// The answer of a waitable check, given the event taken for the task (with
/// the handle of its waitable, 0 for the task's own event): a wait or poll
/// writes it to the payload address (a poll that found nothing writes the
/// zero event) and answers its code; a yield answers 0 and writes nothing.
/// A wait always has an event once it resumes.
pub fn waitable_check_answer(
    kind: CheckKind,
    memory: &mut Vec<u8>,
    payload: u32,
    event: Option<(Event, u32)>,
) -> (r: Result<u32, CheckError>)
    requires
        kind == CheckKind::Wait ==> event is Some,
    ensures
        kind == CheckKind::Yield ==> r == Ok::<u32, CheckError>(0) && final(memory)@ == old(memory)@,
        kind != CheckKind::Yield ==> match inbounds(old(memory)@.len(), payload, 4, 8) {
            Ok(at) => r == Ok::<u32, CheckError>(delivered(event).0) && final(memory)@ == written(
                old(memory)@,
                at as int,
                le_bytes(delivered(event).1) + le_bytes(delivered(event).2),
            ),
            Err(e) => r == Err::<u32, CheckError>(CheckError::Payload(e)) && final(memory)@ == old(
                memory,
            )@,
        },
{
    match kind {
        CheckKind::Yield => Ok(0),
        _ => match deliver_event(memory, payload, event) {
            Ok(code) => Ok(code),
            Err(e) => Err(CheckError::Payload(e)),
        },
    }
}

/// The number that four bytes encode, least significant first.
pub open spec fn le_value(b: Seq<u8>) -> int {
    b[0] + 256 * b[1] + 65536 * b[2] + 16777216 * b[3]
}

/// Reading back the four bytes written for a word gives the word.
pub proof fn lemma_le_bytes_roundtrip(v: u32)
    ensures
        le_bytes(v).len() == 4,
        le_value(le_bytes(v)) == v,
{
    let b = le_bytes(v);
    assert(b[0] == v % 256);
    assert(b[1] == (v / 256) % 256);
    assert(b[2] == (v / 65536) % 256);
    assert(b[3] == (v / 16777216) % 256);
    assert(v % 256 + 256 * ((v / 256) % 256) + 65536 * ((v / 65536) % 256) + 16777216 * ((v
        / 16777216) % 256) == v) by (nonlinear_arith)
        requires
            0 <= v < 0x1_0000_0000,
    ;
}

} // verus!
