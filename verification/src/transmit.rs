//! The state of a stream or future: its two ends, as seen by the runtime,
//! and the per-handle state each component instance keeps for them.

use crate::abi::{Event, CLOSED};
use vstd::prelude::*;

verus! {

/// Which kind of transmit, with its type index.
#[derive(Clone, Copy, Debug, PartialEq, Eq, Structural)]
pub enum TableIndex {
    Stream(u32),
    Future(u32),
}

/// What to do after a pending write completes.
#[derive(Clone, Copy, Debug, PartialEq, Eq, Structural)]
pub enum PostWrite {
    /// Continue performing writes.
    Continue,
    /// Close the channel once the write is done.
    Close,
}

/// The write end of a transmit channel.
#[derive(Clone, Copy, Debug, PartialEq, Eq, Structural)]
pub enum WriteState {
    Open,
    /// A guest write of `count` items is pending on the given handle.
    GuestReady { ty: TableIndex, handle: u32, count: u32, post_write: PostWrite },
    /// A host write is pending.
    HostReady { post_write: PostWrite },
    Closed,
}

/// The read end of a transmit channel.
#[derive(Clone, Copy, Debug, PartialEq, Eq, Structural)]
pub enum ReadState {
    Open,
    /// A guest read of up to `count` items is pending on the given handle.
    GuestReady { ty: TableIndex, handle: u32, count: u32 },
    /// A host read is pending.
    HostReady,
    Closed,
}

/// Both ends of a transmit channel.
#[derive(Clone, Copy, Debug, PartialEq, Eq, Structural)]
pub struct TransmitState {
    pub write: WriteState,
    pub read: ReadState,
}

/// An event that the runtime delivers to the handle of a waiting guest.
#[derive(Clone, Copy, Debug, PartialEq, Eq, Structural)]
pub struct ClosedEvent {
    /// Kind and type of the transmit.
    pub ty: TableIndex,
    /// The payload word: the `CLOSED` flag.
    pub count: u32,
    /// The handle whose state the delivery resets, if any.
    pub pending: Option<u32>,
}

/// What closing the writer end requires of the runtime.
#[derive(Clone, Copy, Debug, PartialEq, Eq, Structural)]
pub enum CloseWriterAction {
    /// Nothing else.
    Nothing,
    /// Deliver the closed event to the guest reader.
    NotifyGuestReader(ClosedEvent),
    /// Tell the waiting host reader the stream has ended.
    EndHostReader,
    /// Both ends are closed: delete the transmit.
    Delete,
}

/// What closing the reader end requires of the runtime.
#[derive(Clone, Copy, Debug, PartialEq, Eq, Structural)]
pub enum CloseReaderAction {
    /// Nothing else.
    Nothing,
    /// Deliver the closed event to the guest writer, deleting the transmit
    /// first when `delete` holds.
    NotifyGuestWriter { event: ClosedEvent, delete: bool },
    /// Tell the waiting host writer its reader is gone.
    EndHostWriter,
    /// Both ends are closed: delete the transmit.
    Delete,
}

/// The state after closing the writer end, and the action it calls for.
pub open spec fn close_writer_spec(s: TransmitState) -> (TransmitState, CloseWriterAction) {
    let write = match s.write {
        WriteState::GuestReady { ty, handle, count, .. } => WriteState::GuestReady {
            ty,
            handle,
            count,
            post_write: PostWrite::Close,
        },
        WriteState::HostReady { .. } => WriteState::HostReady { post_write: PostWrite::Close },
        _ => WriteState::Closed,
    };
    let read = if s.read == ReadState::Closed {
        ReadState::Closed
    } else {
        ReadState::Open
    };
    let action = match s.read {
        ReadState::GuestReady { ty, handle, .. } => CloseWriterAction::NotifyGuestReader(
            ClosedEvent { ty, count: CLOSED, pending: Some(handle) },
        ),
        ReadState::HostReady => CloseWriterAction::EndHostReader,
        ReadState::Open => CloseWriterAction::Nothing,
        ReadState::Closed => CloseWriterAction::Delete,
    };
    (TransmitState { write, read }, action)
}

/// The state after closing the reader end, and the action it calls for.
pub open spec fn close_reader_spec(s: TransmitState) -> (TransmitState, CloseReaderAction) {
    let write = if s.write == WriteState::Closed {
        WriteState::Closed
    } else {
        WriteState::Open
    };
    let action = match s.write {
        WriteState::GuestReady { ty, handle, post_write, .. } => {
            let delete = post_write == PostWrite::Close;
            CloseReaderAction::NotifyGuestWriter {
                event: ClosedEvent {
                    ty,
                    count: CLOSED,
                    pending: if delete {
                        None
                    } else {
                        Some(handle)
                    },
                },
                delete,
            }
        },
        WriteState::HostReady { .. } => CloseReaderAction::EndHostWriter,
        WriteState::Open => CloseReaderAction::Nothing,
        WriteState::Closed => CloseReaderAction::Delete,
    };
    (TransmitState { write, read: ReadState::Closed }, action)
}

impl TransmitState {
    /// A fresh channel with both ends open.
    pub fn new() -> (r: Self)
        ensures
            r.write == WriteState::Open,
            r.read == ReadState::Open,
    {
        TransmitState { write: WriteState::Open, read: ReadState::Open }
    }

    /// Closes the writer end. A pending write is marked to close once it is
    /// done; the reader end becomes open again unless it was closed; a
    /// pending guest read gets the closed event, a pending host read is
    /// ended, and if the reader was already closed the transmit is deleted.
    pub fn close_writer(&mut self) -> (r: CloseWriterAction)
        requires
            old(self).write != WriteState::Closed,
        ensures
            (*final(self), r) == close_writer_spec(*old(self)),
    {
        self.write = match self.write {
            WriteState::GuestReady { ty, handle, count, .. } => WriteState::GuestReady {
                ty,
                handle,
                count,
                post_write: PostWrite::Close,
            },
            WriteState::HostReady { .. } => WriteState::HostReady { post_write: PostWrite::Close },
            _ => WriteState::Closed,
        };
        let old_read = self.read;
        self.read = match old_read {
            ReadState::Closed => ReadState::Closed,
            _ => ReadState::Open,
        };
        match old_read {
            ReadState::GuestReady { ty, handle, .. } => CloseWriterAction::NotifyGuestReader(
                ClosedEvent { ty, count: CLOSED, pending: Some(handle) },
            ),
            ReadState::HostReady => CloseWriterAction::EndHostReader,
            ReadState::Open => CloseWriterAction::Nothing,
            ReadState::Closed => CloseWriterAction::Delete,
        }
    }

    /// Closes the reader end. The writer end becomes open again unless it
    /// was closed; a pending guest write gets the closed event (and the
    /// transmit is deleted if that write was to close it), a pending host
    /// write is ended, and if the writer was already closed the transmit is
    /// deleted.
    pub fn close_reader(&mut self) -> (r: CloseReaderAction)
        ensures
            (*final(self), r) == close_reader_spec(*old(self)),
    {
        self.read = ReadState::Closed;
        let old_write = self.write;
        self.write = match old_write {
            WriteState::Closed => WriteState::Closed,
            _ => WriteState::Open,
        };
        match old_write {
            WriteState::GuestReady { ty, handle, post_write, .. } => {
                let delete = matches!(post_write, PostWrite::Close);
                CloseReaderAction::NotifyGuestWriter {
                    event: ClosedEvent {
                        ty,
                        count: CLOSED,
                        pending: if delete {
                            None
                        } else {
                            Some(handle)
                        },
                    },
                    delete,
                }
            },
            WriteState::HostReady { .. } => CloseReaderAction::EndHostWriter,
            WriteState::Open => CloseReaderAction::Nothing,
            WriteState::Closed => CloseReaderAction::Delete,
        }
    }

    /// Cancels a pending write, if any, leaving the write end open; a write
    /// end that is open or closed stays as it is.
    pub fn cancel_write(&mut self)
        ensures
            final(self).read == old(self).read,
            final(self).write == match old(self).write {
                WriteState::GuestReady { .. } | WriteState::HostReady { .. } => WriteState::Open,
                other => other,
            },
    {
        match self.write {
            WriteState::GuestReady { .. } | WriteState::HostReady { .. } => {
                self.write = WriteState::Open;
            },
            _ => {},
        }
    }

    /// Cancels a pending read, if any, leaving the read end open; a read end
    /// that is open or closed stays as it is.
    pub fn cancel_read(&mut self)
        ensures
            final(self).write == old(self).write,
            final(self).read == match old(self).read {
                ReadState::GuestReady { .. } | ReadState::HostReady => ReadState::Open,
                other => other,
            },
    {
        match self.read {
            ReadState::GuestReady { .. } | ReadState::HostReady => {
                self.read = ReadState::Open;
            },
            _ => {},
        }
    }
}

/// The watchers of a transmit's ends: a notifier held for each side,
/// dropped (which wakes whoever watches) when that end is closed.
pub struct Watchers<W> {
    /// Notified when the writer end closes; held for the reader.
    pub writer: Option<W>,
    /// Notified when the reader end closes; held for the writer.
    pub reader: Option<W>,
}

impl TransmitState {
    /// The writer starts watching for the reader's close: the notifier is
    /// kept unless the reader end is already closed, in which case it is
    /// dropped at once (as `r`), waking the writer.
    pub fn watch_reader<W>(&self, watchers: &mut Watchers<W>, tx: W) -> (r: Option<W>)
        ensures
            self.read != ReadState::Closed ==> final(watchers).reader == Some(tx) && r is None,
            self.read == ReadState::Closed ==> final(watchers).reader == old(watchers).reader
                && r == Some(tx),
            final(watchers).writer == old(watchers).writer,
    {
        if matches!(self.read, ReadState::Closed) {
            Some(tx)
        } else {
            watchers.reader = Some(tx);
            None
        }
    }

    /// The reader starts watching for the writer's close, likewise.
    pub fn watch_writer<W>(&self, watchers: &mut Watchers<W>, tx: W) -> (r: Option<W>)
        ensures
            self.write != WriteState::Closed ==> final(watchers).writer == Some(tx) && r is None,
            self.write == WriteState::Closed ==> final(watchers).writer == old(watchers).writer
                && r == Some(tx),
            final(watchers).reader == old(watchers).reader,
    {
        if matches!(self.write, WriteState::Closed) {
            Some(tx)
        } else {
            watchers.writer = Some(tx);
            None
        }
    }

    /// The host closes the writer end: its watcher is removed (and handed
    /// back, to be dropped, which wakes the reader), and the transmit closes
    /// as `close_writer` says.
    pub fn host_close_writer<W>(&mut self, watchers: &mut Watchers<W>) -> (r: (CloseWriterAction, Option<W>))
        requires
            old(self).write != WriteState::Closed,
        ensures
            (*final(self), r.0) == close_writer_spec(*old(self)),
            r.1 == old(watchers).writer,
            final(watchers).writer is None,
            final(watchers).reader == old(watchers).reader,
    {
        let w = watchers.writer.take();
        let action = self.close_writer();
        (action, w)
    }

    /// The host closes the reader end: its watcher is removed (and handed
    /// back, to be dropped, which wakes the writer), and the transmit closes
    /// as `close_reader` says.
    pub fn host_close_reader<W>(&mut self, watchers: &mut Watchers<W>) -> (r: (CloseReaderAction, Option<W>))
        ensures
            (*final(self), r.0) == close_reader_spec(*old(self)),
            r.1 == old(watchers).reader,
            final(watchers).reader is None,
            final(watchers).writer == old(watchers).writer,
    {
        let w = watchers.reader.take();
        let action = self.close_reader();
        (action, w)
    }
}

/// What a guest write meets at the reader end.
#[derive(Clone, Copy, Debug, PartialEq, Eq, Structural)]
pub enum GuestWriteOutcome {
    /// A guest read was pending on handle `handle` of type `ty`: `count`
    /// items move to it, and that handle gets a read event for them.
    ToGuestReader { count: u32, ty: TableIndex, handle: u32 },
    /// A host read was pending: it takes the items it accepts.
    ToHostReader,
    /// No read is pending: the write waits, and the guest is told `BLOCKED`.
    Blocked,
    /// The reader end is closed: the guest is told `CLOSED`.
    ReaderClosed,
}

/// What a guest read meets at the writer end.
#[derive(Clone, Copy, Debug, PartialEq, Eq, Structural)]
pub enum GuestReadOutcome {
    /// A guest write was pending on handle `handle` of type `ty`: `count`
    /// items move from it, and that handle gets a write event for them,
    /// which resets the handle (`pending`) unless the writer is to close
    /// after this write.
    FromGuestWriter { count: u32, ty: TableIndex, handle: u32, pending: bool },
    /// A host write was pending: it gives the items the guest has room for.
    FromHostWriter,
    /// No write is pending: the read waits, and the guest is told `BLOCKED`.
    Blocked,
    /// The writer end is closed: the guest is told `CLOSED`.
    WriterClosed,
}

/// The fewer of two counts.
pub open spec fn min_count(a: u32, b: u32) -> u32 {
    if a <= b {
        a
    } else {
        b
    }
}

/// The state after a guest writes `count` items through handle `handle`
/// of type `ty`, and what the write meets. A pending read is taken over by
/// the write (the read end becomes open); with none, the write becomes the
/// pending one.
pub open spec fn guest_write_spec(s: TransmitState, ty: TableIndex, handle: u32, count: u32) -> (
    TransmitState,
    GuestWriteOutcome,
) {
    match s.read {
        ReadState::GuestReady { ty: rty, handle: rh, count: rc } => (
            TransmitState { write: s.write, read: ReadState::Open },
            GuestWriteOutcome::ToGuestReader { count: min_count(count, rc), ty: rty, handle: rh },
        ),
        ReadState::HostReady => (
            TransmitState { write: s.write, read: ReadState::Open },
            GuestWriteOutcome::ToHostReader,
        ),
        ReadState::Open => (
            TransmitState {
                write: WriteState::GuestReady { ty, handle, count, post_write: PostWrite::Continue },
                read: ReadState::Open,
            },
            GuestWriteOutcome::Blocked,
        ),
        ReadState::Closed => (s, GuestWriteOutcome::ReaderClosed),
    }
}

/// The state after a guest reads up to `count` items through handle
/// `handle` of type `ty`, and what the read meets. A pending write is taken
/// over by the read; the write end becomes open, or closed if the writer
/// was to close after that write. With none pending, the read becomes the
/// pending one.
pub open spec fn guest_read_spec(s: TransmitState, ty: TableIndex, handle: u32, count: u32) -> (
    TransmitState,
    GuestReadOutcome,
) {
    match s.write {
        WriteState::GuestReady { ty: wty, handle: wh, count: wc, post_write } => (
            TransmitState {
                write: if post_write == PostWrite::Close {
                    WriteState::Closed
                } else {
                    WriteState::Open
                },
                read: s.read,
            },
            GuestReadOutcome::FromGuestWriter {
                count: min_count(count, wc),
                ty: wty,
                handle: wh,
                pending: post_write == PostWrite::Continue,
            },
        ),
        WriteState::HostReady { post_write } => (
            TransmitState {
                write: if post_write == PostWrite::Close {
                    WriteState::Closed
                } else {
                    WriteState::Open
                },
                read: s.read,
            },
            GuestReadOutcome::FromHostWriter,
        ),
        WriteState::Open => (
            TransmitState {
                write: WriteState::Open,
                read: ReadState::GuestReady { ty, handle, count },
            },
            GuestReadOutcome::Blocked,
        ),
        WriteState::Closed => (s, GuestReadOutcome::WriterClosed),
    }
}

impl TransmitState {
    /// A guest writes `count` items through handle `handle` of type `ty`.
    /// With no read pending, the write end must be open, as a pending write
    /// keeps the handle busy.
    pub fn guest_write(&mut self, ty: TableIndex, handle: u32, count: u32) -> (r: GuestWriteOutcome)
        requires
            old(self).read == ReadState::Open ==> old(self).write == WriteState::Open,
        ensures
            (*final(self), r) == guest_write_spec(*old(self), ty, handle, count),
    {
        match self.read {
            ReadState::GuestReady { ty: rty, handle: rh, count: rc } => {
                self.read = ReadState::Open;
                let n = if count <= rc {
                    count
                } else {
                    rc
                };
                GuestWriteOutcome::ToGuestReader { count: n, ty: rty, handle: rh }
            },
            ReadState::HostReady => {
                self.read = ReadState::Open;
                GuestWriteOutcome::ToHostReader
            },
            ReadState::Open => {
                self.write = WriteState::GuestReady {
                    ty,
                    handle,
                    count,
                    post_write: PostWrite::Continue,
                };
                GuestWriteOutcome::Blocked
            },
            ReadState::Closed => GuestWriteOutcome::ReaderClosed,
        }
    }

    /// A guest reads up to `count` items through handle `handle` of type
    /// `ty`. With no write pending, the read end must be open, as a pending
    /// read keeps the handle busy.
    pub fn guest_read(&mut self, ty: TableIndex, handle: u32, count: u32) -> (r: GuestReadOutcome)
        requires
            old(self).write == WriteState::Open ==> old(self).read == ReadState::Open,
        ensures
            (*final(self), r) == guest_read_spec(*old(self), ty, handle, count),
    {
        match self.write {
            WriteState::GuestReady { ty: wty, handle: wh, count: wc, post_write } => {
                let close = matches!(post_write, PostWrite::Close);
                self.write = if close {
                    WriteState::Closed
                } else {
                    WriteState::Open
                };
                let n = if count <= wc {
                    count
                } else {
                    wc
                };
                GuestReadOutcome::FromGuestWriter { count: n, ty: wty, handle: wh, pending: !close }
            },
            WriteState::HostReady { post_write } => {
                self.write = if matches!(post_write, PostWrite::Close) {
                    WriteState::Closed
                } else {
                    WriteState::Open
                };
                GuestReadOutcome::FromHostWriter
            },
            WriteState::Open => {
                self.read = ReadState::GuestReady { ty, handle, count };
                GuestReadOutcome::Blocked
            },
            WriteState::Closed => GuestReadOutcome::WriterClosed,
        }
    }
}

/// What a host write meets at the reader end.
#[derive(Clone, Copy, Debug, PartialEq, Eq, Structural)]
pub enum HostWriteOutcome {
    /// A guest read of up to `room` items was pending on handle `handle` of
    /// type `ty`: it takes what it accepts, and that handle gets a read event.
    ToGuestReader { ty: TableIndex, handle: u32, room: u32 },
    /// A host read was pending: the items move from buffer to buffer.
    ToHostReader,
    /// No read is pending: the write waits for one.
    Blocked,
    /// The reader end is closed.
    ReaderClosed,
}

/// What a host read meets at the writer end.
#[derive(Clone, Copy, Debug, PartialEq, Eq, Structural)]
pub enum HostReadOutcome {
    /// A guest write of `offered` items was pending on handle `handle` of
    /// type `ty`: the read takes what it has room for, and that handle gets
    /// a write event, which resets it (`pending`) unless the writer is to
    /// close after this write.
    FromGuestWriter { ty: TableIndex, handle: u32, offered: u32, pending: bool },
    /// A host write was pending: the items move from buffer to buffer.
    FromHostWriter,
    /// No write is pending: the read waits for one.
    Blocked,
    /// The writer end is closed.
    WriterClosed,
}

/// The state after a host write, what it meets, and whether the writer end
/// is to be closed right away: with `post_write` asking to close, a write
/// that waits closes once it is taken, any other at once.
pub open spec fn host_write_spec(s: TransmitState, post_write: PostWrite) -> (
    TransmitState,
    HostWriteOutcome,
    bool,
) {
    let close_now = post_write == PostWrite::Close;
    let taken = TransmitState { write: s.write, read: ReadState::Open };
    match s.read {
        ReadState::Open => (
            TransmitState { write: WriteState::HostReady { post_write }, read: ReadState::Open },
            HostWriteOutcome::Blocked,
            false,
        ),
        ReadState::GuestReady { ty, handle, count } => (
            taken,
            HostWriteOutcome::ToGuestReader { ty, handle, room: count },
            close_now,
        ),
        ReadState::HostReady => (taken, HostWriteOutcome::ToHostReader, close_now),
        ReadState::Closed => (s, HostWriteOutcome::ReaderClosed, close_now),
    }
}

/// The state after a host read and what it meets. A pending write is taken
/// over by the read; the write end becomes open, or closed if the writer
/// was to close after that write. With none pending, the read waits.
pub open spec fn host_read_spec(s: TransmitState) -> (TransmitState, HostReadOutcome) {
    match s.write {
        WriteState::GuestReady { ty, handle, count, post_write } => (
            TransmitState {
                write: if post_write == PostWrite::Close {
                    WriteState::Closed
                } else {
                    WriteState::Open
                },
                read: s.read,
            },
            HostReadOutcome::FromGuestWriter {
                ty,
                handle,
                offered: count,
                pending: post_write == PostWrite::Continue,
            },
        ),
        WriteState::HostReady { post_write } => (
            TransmitState {
                write: if post_write == PostWrite::Close {
                    WriteState::Closed
                } else {
                    WriteState::Open
                },
                read: s.read,
            },
            HostReadOutcome::FromHostWriter,
        ),
        WriteState::Open => (
            TransmitState { write: WriteState::Open, read: ReadState::HostReady },
            HostReadOutcome::Blocked,
        ),
        WriteState::Closed => (s, HostReadOutcome::WriterClosed),
    }
}

impl TransmitState {
    /// The host writes through the writer end it holds, which is not closed
    /// and, with no read pending, has no write pending either. When the
    /// write is to close the writer and does not wait, the writer end is
    /// closed after it, with the action that closing calls for.
    pub fn host_write(&mut self, post_write: PostWrite) -> (r: (HostWriteOutcome, Option<CloseWriterAction>))
        requires
            old(self).write != WriteState::Closed,
            old(self).read == ReadState::Open ==> old(self).write == WriteState::Open,
        ensures
            ({
                let (mid, outcome, close_now) = host_write_spec(*old(self), post_write);
                &&& r.0 == outcome
                &&& if close_now {
                    r.1 == Some(close_writer_spec(mid).1) && *final(self) == close_writer_spec(mid).0
                } else {
                    r.1 is None && *final(self) == mid
                }
            }),
    {
        let close_now = matches!(post_write, PostWrite::Close);
        let outcome = match self.read {
            ReadState::Open => {
                self.write = WriteState::HostReady { post_write };
                return (HostWriteOutcome::Blocked, None);
            },
            ReadState::GuestReady { ty, handle, count } => {
                self.read = ReadState::Open;
                HostWriteOutcome::ToGuestReader { ty, handle, room: count }
            },
            ReadState::HostReady => {
                self.read = ReadState::Open;
                HostWriteOutcome::ToHostReader
            },
            ReadState::Closed => HostWriteOutcome::ReaderClosed,
        };
        if close_now {
            let action = self.close_writer();
            (outcome, Some(action))
        } else {
            (outcome, None)
        }
    }

    /// The host reads through the reader end it holds; with no write
    /// pending, the reader end must be open.
    pub fn host_read(&mut self) -> (r: HostReadOutcome)
        requires
            old(self).write == WriteState::Open ==> old(self).read == ReadState::Open,
        ensures
            (*final(self), r) == host_read_spec(*old(self)),
    {
        match self.write {
            WriteState::GuestReady { ty, handle, count, post_write } => {
                let close = matches!(post_write, PostWrite::Close);
                self.write = if close {
                    WriteState::Closed
                } else {
                    WriteState::Open
                };
                HostReadOutcome::FromGuestWriter { ty, handle, offered: count, pending: !close }
            },
            WriteState::HostReady { post_write } => {
                self.write = if matches!(post_write, PostWrite::Close) {
                    WriteState::Closed
                } else {
                    WriteState::Open
                };
                HostReadOutcome::FromHostWriter
            },
            WriteState::Open => {
                self.read = ReadState::HostReady;
                HostReadOutcome::Blocked
            },
            WriteState::Closed => HostReadOutcome::WriterClosed,
        }
    }
}

/// A write that waits for a reader is taken over by the next guest read,
/// which gets as many items as both asked for; with the writer left open,
/// both ends are then open again.
pub proof fn lemma_write_then_read_meet(
    s: TransmitState,
    wty: TableIndex,
    wh: u32,
    wc: u32,
    rty: TableIndex,
    rh: u32,
    rc: u32,
)
    requires
        s.write == WriteState::Open,
        s.read == ReadState::Open,
    ensures
        guest_write_spec(s, wty, wh, wc).1 == GuestWriteOutcome::Blocked,
        guest_read_spec(guest_write_spec(s, wty, wh, wc).0, rty, rh, rc) == (
            TransmitState { write: WriteState::Open, read: ReadState::Open },
            GuestReadOutcome::FromGuestWriter {
                count: min_count(rc, wc),
                ty: wty,
                handle: wh,
                pending: true,
            },
        ),
{
}

/// Likewise, a read that waits for a writer is taken over by the next guest
/// write.
pub proof fn lemma_read_then_write_meet(
    s: TransmitState,
    rty: TableIndex,
    rh: u32,
    rc: u32,
    wty: TableIndex,
    wh: u32,
    wc: u32,
)
    requires
        s.write == WriteState::Open,
        s.read == ReadState::Open,
    ensures
        guest_read_spec(s, rty, rh, rc).1 == GuestReadOutcome::Blocked,
        guest_write_spec(guest_read_spec(s, rty, rh, rc).0, wty, wh, wc) == (
            TransmitState { write: WriteState::Open, read: ReadState::Open },
            GuestWriteOutcome::ToGuestReader { count: min_count(wc, rc), ty: rty, handle: rh },
        ),
{
}

/// After a guest operation on a busy handle, the handle is idle again
/// unless the operation waits.
pub fn settle_handle(state: &mut StreamFutureState, is_read: bool, blocked: bool)
    requires
        *old(state) == StreamFutureState::Busy,
    ensures
        *final(state) == if blocked {
            StreamFutureState::Busy
        } else {
            idle(is_read)
        },
{
    if !blocked {
        *state = if is_read {
            StreamFutureState::Read
        } else {
            StreamFutureState::Write
        };
    }
}

/// A closed reader end stays closed whatever the writer end does, and the
/// transmit is deleted by closing the writer exactly when the reader is
/// already closed.
pub proof fn lemma_closed_reader_stays_closed(s: TransmitState)
    requires
        s.read == ReadState::Closed,
    ensures
        s.write != WriteState::Closed ==> close_writer_spec(s).0.read == ReadState::Closed,
        s.write != WriteState::Closed ==> close_writer_spec(s).1 == CloseWriterAction::Delete,
        close_reader_spec(s).0.read == ReadState::Closed,
{
}

/// Closing both ends, in either order, from a channel with no pending
/// operations deletes the transmit exactly once: by the second close.
pub proof fn lemma_close_both_deletes_once(s: TransmitState)
    requires
        s.write == WriteState::Open,
        s.read == ReadState::Open,
    ensures
        close_writer_spec(s).1 == CloseWriterAction::Nothing,
        close_reader_spec(close_writer_spec(s).0).1 == CloseReaderAction::Delete,
        close_reader_spec(s).1 == CloseReaderAction::Nothing,
        close_reader_spec(s).0.write == WriteState::Open,
        close_writer_spec(close_reader_spec(s).0).1 == CloseWriterAction::Delete,
{
}

/// The state of a stream or future handle in a component instance's table.
#[derive(Clone, Copy, Debug, PartialEq, Eq, Structural)]
pub enum StreamFutureState {
    /// Only the write end is owned by this component instance.
    Write,
    /// Only the read end is owned by this component instance.
    Read,
    /// A read or write is in progress.
    Busy,
}

/// Why an operation on a stream or future handle was refused.
#[derive(Clone, Copy, Debug, PartialEq, Eq, Structural)]
pub enum HandleError {
    /// The handle is not in the state the operation needs.
    WrongState { expected: StreamFutureState, got: StreamFutureState },
    /// A cancel with no operation pending.
    NothingPending,
    /// The read end was passed where the write end is needed.
    ReadEndGiven,
    /// The write end was passed where the read end is needed.
    WriteEndGiven,
    /// The handle has an operation in progress.
    Busy,
}

/// The idle state of the end that reads (`is_read`) or writes.
pub open spec fn idle(is_read: bool) -> StreamFutureState {
    if is_read {
        StreamFutureState::Read
    } else {
        StreamFutureState::Write
    }
}

/// The state after starting a read (`is_read`) or write, if it may start.
pub open spec fn started(s: StreamFutureState, is_read: bool) -> Option<StreamFutureState> {
    if s == idle(is_read) {
        Some(StreamFutureState::Busy)
    } else {
        None
    }
}

/// The state after cancelling a read (`is_read`) or write, if one is pending.
pub open spec fn cancelled(s: StreamFutureState, is_read: bool) -> Option<StreamFutureState> {
    if s == StreamFutureState::Busy {
        Some(idle(is_read))
    } else {
        None
    }
}

/// The state after the event of a pending read (`is_read`) or write is
/// delivered.
pub open spec fn delivered(s: StreamFutureState, is_read: bool) -> StreamFutureState {
    idle(is_read)
}

/// Starts a write on a handle, which must be an idle write end.
pub fn start_write(state: &mut StreamFutureState) -> (r: Result<(), HandleError>)
    ensures
        if started(*old(state), false) is Some {
            r is Ok && Some(*final(state)) == started(*old(state), false)
        } else {
            r == Err::<(), HandleError>(
                HandleError::WrongState { expected: StreamFutureState::Write, got: *old(state) },
            ) && *final(state) == *old(state)
        },
{
    match state {
        StreamFutureState::Write => {
            *state = StreamFutureState::Busy;
            Ok(())
        },
        _ => Err(HandleError::WrongState { expected: StreamFutureState::Write, got: *state }),
    }
}

/// Starts a read on a handle, which must be an idle read end.
pub fn start_read(state: &mut StreamFutureState) -> (r: Result<(), HandleError>)
    ensures
        if started(*old(state), true) is Some {
            r is Ok && Some(*final(state)) == started(*old(state), true)
        } else {
            r == Err::<(), HandleError>(
                HandleError::WrongState { expected: StreamFutureState::Read, got: *old(state) },
            ) && *final(state) == *old(state)
        },
{
    match state {
        StreamFutureState::Read => {
            *state = StreamFutureState::Busy;
            Ok(())
        },
        _ => Err(HandleError::WrongState { expected: StreamFutureState::Read, got: *state }),
    }
}

/// Cancels the pending write on a write end, making it idle again.
pub fn guest_cancel_write(state: &mut StreamFutureState) -> (r: Result<(), HandleError>)
    ensures
        match *old(state) {
            StreamFutureState::Busy => r is Ok && Some(*final(state)) == cancelled(
                *old(state),
                false,
            ),
            StreamFutureState::Write => r == Err::<(), HandleError>(HandleError::NothingPending)
                && *final(state) == *old(state),
            StreamFutureState::Read => r == Err::<(), HandleError>(HandleError::ReadEndGiven)
                && *final(state) == *old(state),
        },
{
    match state {
        StreamFutureState::Write => Err(HandleError::NothingPending),
        StreamFutureState::Read => Err(HandleError::ReadEndGiven),
        StreamFutureState::Busy => {
            *state = StreamFutureState::Write;
            Ok(())
        },
    }
}

/// Cancels the pending read on a read end, making it idle again.
pub fn guest_cancel_read(state: &mut StreamFutureState) -> (r: Result<(), HandleError>)
    ensures
        match *old(state) {
            StreamFutureState::Busy => r is Ok && Some(*final(state)) == cancelled(
                *old(state),
                true,
            ),
            StreamFutureState::Read => r == Err::<(), HandleError>(HandleError::NothingPending)
                && *final(state) == *old(state),
            StreamFutureState::Write => r == Err::<(), HandleError>(HandleError::WriteEndGiven)
                && *final(state) == *old(state),
        },
{
    match state {
        StreamFutureState::Read => Err(HandleError::NothingPending),
        StreamFutureState::Write => Err(HandleError::WriteEndGiven),
        StreamFutureState::Busy => {
            *state = StreamFutureState::Read;
            Ok(())
        },
    }
}

/// Checks that a handle being closed as a write end is an idle write end.
pub fn check_close_writable(state: StreamFutureState) -> (r: Result<(), HandleError>)
    ensures
        r == match state {
            StreamFutureState::Write => Ok(()),
            StreamFutureState::Read => Err(HandleError::ReadEndGiven),
            StreamFutureState::Busy => Err::<(), HandleError>(HandleError::Busy),
        },
{
    match state {
        StreamFutureState::Write => Ok(()),
        StreamFutureState::Read => Err(HandleError::ReadEndGiven),
        StreamFutureState::Busy => Err(HandleError::Busy),
    }
}

/// Checks that a handle being closed as a read end is an idle read end.
pub fn check_close_readable(state: StreamFutureState) -> (r: Result<(), HandleError>)
    ensures
        r == match state {
            StreamFutureState::Read => Ok(()),
            StreamFutureState::Write => Err(HandleError::WriteEndGiven),
            StreamFutureState::Busy => Err::<(), HandleError>(HandleError::Busy),
        },
{
    match state {
        StreamFutureState::Read => Ok(()),
        StreamFutureState::Write => Err(HandleError::WriteEndGiven),
        StreamFutureState::Busy => Err(HandleError::Busy),
    }
}

/// Checks that a handle being passed to another instance is an idle read
/// end; only those may be transferred.
pub fn check_transfer(state: StreamFutureState) -> (r: Result<(), HandleError>)
    ensures
        r == match state {
            StreamFutureState::Read => Ok(()),
            StreamFutureState::Write => Err(HandleError::WriteEndGiven),
            StreamFutureState::Busy => Err::<(), HandleError>(HandleError::Busy),
        },
{
    check_close_readable(state)
}

/// Marks the end of a pending operation when its event is delivered: a
/// busy handle becomes an idle read end after a read event and an idle
/// write end after a write event.
pub fn on_delivery(state: &mut StreamFutureState, is_read: bool)
    requires
        *old(state) == StreamFutureState::Busy,
    ensures
        *final(state) == delivered(*old(state), is_read),
{
    *state = if is_read {
        StreamFutureState::Read
    } else {
        StreamFutureState::Write
    };
}

/// The handle that delivering a stream or future event resets, of type
/// `ty`, to the idle state of a reader (`is_read`) or writer.
#[derive(Clone, Copy, Debug, PartialEq, Eq, Structural)]
pub struct HandleReset {
    pub ty: TableIndex,
    pub handle: u32,
    pub is_read: bool,
}

/// The handle an event resets when delivered: that of a read or write
/// event still pending on its handle; none for any other event.
pub open spec fn reset_of(event: Event) -> Option<HandleReset> {
    match event {
        Event::StreamRead { pending: Some((t, h)), .. } => Some(
            HandleReset { ty: TableIndex::Stream(t), handle: h, is_read: true },
        ),
        Event::StreamWrite { pending: Some((t, h)), .. } => Some(
            HandleReset { ty: TableIndex::Stream(t), handle: h, is_read: false },
        ),
        Event::FutureRead { pending: Some((t, h)), .. } => Some(
            HandleReset { ty: TableIndex::Future(t), handle: h, is_read: true },
        ),
        Event::FutureWrite { pending: Some((t, h)), .. } => Some(
            HandleReset { ty: TableIndex::Future(t), handle: h, is_read: false },
        ),
        _ => None,
    }
}

/// Finds the handle that delivering `event` resets.
pub fn delivery_reset(event: Event) -> (r: Option<HandleReset>)
    ensures
        r == reset_of(event),
{
    match event {
        Event::StreamRead { pending: Some((t, h)), .. } => Some(
            HandleReset { ty: TableIndex::Stream(t), handle: h, is_read: true },
        ),
        Event::StreamWrite { pending: Some((t, h)), .. } => Some(
            HandleReset { ty: TableIndex::Stream(t), handle: h, is_read: false },
        ),
        Event::FutureRead { pending: Some((t, h)), .. } => Some(
            HandleReset { ty: TableIndex::Future(t), handle: h, is_read: true },
        ),
        Event::FutureWrite { pending: Some((t, h)), .. } => Some(
            HandleReset { ty: TableIndex::Future(t), handle: h, is_read: false },
        ),
        _ => None,
    }
}

/// Resets the table entry of the handle a delivered event names: that
/// entry is a busy end of the event's type, and becomes an idle reader or
/// writer of that type.
pub fn reset_entry(entry: &mut WaitableState, reset: HandleReset)
    requires
        transmit_state_of(*old(entry), reset.ty) == Ok::<StreamFutureState, InvalidHandle>(
            StreamFutureState::Busy,
        ),
    ensures
        *final(entry) == entry_of(reset.ty, idle(reset.is_read)),
        transmit_state_of(*final(entry), reset.ty) == Ok::<StreamFutureState, InvalidHandle>(
            idle(reset.is_read),
        ),
{
    let mut state = StreamFutureState::Busy;
    on_delivery(&mut state, reset.is_read);
    *entry = waitable_state(reset.ty, state);
}

/// Starting, then cancelling, an operation on a handle returns it to the
/// idle state it was in; so does starting it and delivering its event.
pub proof fn lemma_start_then_cancel(s: StreamFutureState, is_read: bool)
    requires
        started(s, is_read) is Some,
    ensures
        cancelled(started(s, is_read)->0, is_read) == Some(s),
        delivered(started(s, is_read)->0, is_read) == s,
{
}

/// What a handle in a component instance's waitable table stands for.
#[derive(Clone, Copy, Debug, PartialEq, Eq, Structural)]
pub enum WaitableState {
    /// A host task.
    HostTask,
    /// A guest task.
    GuestTask,
    /// An end of a stream of the given type, in the given state.
    Stream(u32, StreamFutureState),
    /// An end of a future of the given type, in the given state.
    Future(u32, StreamFutureState),
    /// A waitable set.
    WaitableSet,
}

/// The table entry of a stream or future end of type `ty` in state `state`.
pub open spec fn entry_of(ty: TableIndex, state: StreamFutureState) -> WaitableState {
    match ty {
        TableIndex::Stream(t) => WaitableState::Stream(t, state),
        TableIndex::Future(t) => WaitableState::Future(t, state),
    }
}

/// Builds the table entry of a stream or future end.
pub fn waitable_state(ty: TableIndex, state: StreamFutureState) -> (r: WaitableState)
    ensures
        r == entry_of(ty, state),
{
    match ty {
        TableIndex::Stream(t) => WaitableState::Stream(t, state),
        TableIndex::Future(t) => WaitableState::Future(t, state),
    }
}

/// A handle used as a stream or future end is not one of the type named.
#[derive(Clone, Copy, Debug, PartialEq, Eq, Structural)]
pub enum InvalidHandle {
    /// Not a stream end of the type named.
    Stream,
    /// Not a future end of the type named.
    Future,
}

/// The state of a table entry used as an end of a stream or future of type
/// `ty`: refused unless the entry is such an end, of that very type.
pub open spec fn transmit_state_of(entry: WaitableState, ty: TableIndex) -> Result<
    StreamFutureState,
    InvalidHandle,
> {
    match (ty, entry) {
        (TableIndex::Stream(t), WaitableState::Stream(u, s)) if u == t => Ok(s),
        (TableIndex::Stream(_), _) => Err(InvalidHandle::Stream),
        (TableIndex::Future(t), WaitableState::Future(u, s)) if u == t => Ok(s),
        (TableIndex::Future(_), _) => Err(InvalidHandle::Future),
    }
}

/// Reads the state of a table entry used as an end of a stream or future of
/// type `ty`.
pub fn transmit_state(entry: WaitableState, ty: TableIndex) -> (r: Result<StreamFutureState, InvalidHandle>)
    ensures
        r == transmit_state_of(entry, ty),
{
    match ty {
        TableIndex::Stream(t) => match entry {
            WaitableState::Stream(u, s) => if u == t {
                Ok(s)
            } else {
                Err(InvalidHandle::Stream)
            },
            _ => Err(InvalidHandle::Stream),
        },
        TableIndex::Future(t) => match entry {
            WaitableState::Future(u, s) => if u == t {
                Ok(s)
            } else {
                Err(InvalidHandle::Future)
            },
            _ => Err(InvalidHandle::Future),
        },
    }
}

/// The entry built for an end of type `ty` is read back as such an end, in
/// the state it was built with; used as an end of any other type it is
/// refused.
pub proof fn lemma_entry_roundtrip(ty: TableIndex, other: TableIndex, state: StreamFutureState)
    requires
        other != ty,
    ensures
        transmit_state_of(entry_of(ty, state), ty) == Ok::<StreamFutureState, InvalidHandle>(state),
        transmit_state_of(entry_of(ty, state), other) is Err,
{
}

} // verus!
