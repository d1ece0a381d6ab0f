use wasip3::abi::{Event, Status, CLOSED};
use wasip3::transmit::{
    check_close_readable, check_close_writable, check_transfer, guest_cancel_read,
    guest_cancel_write, on_delivery, settle_handle, start_read, start_write, ClosedEvent,
    CloseReaderAction, CloseWriterAction, GuestReadOutcome, GuestWriteOutcome, HandleError,
    HostReadOutcome, HostWriteOutcome, delivery_reset, reset_entry, waitable_state, HandleReset,
    WaitableState,
    PostWrite, ReadState, StreamFutureState, TableIndex, TransmitState, WriteState,
};

#[test]
fn closing_both_ends_deletes_once() {
    let mut t = TransmitState::new();
    assert_eq!(t.close_writer(), CloseWriterAction::Nothing);
    assert_eq!(t.write, WriteState::Closed);
    assert_eq!(t.close_reader(), CloseReaderAction::Delete);

    let mut t = TransmitState::new();
    assert_eq!(t.close_reader(), CloseReaderAction::Nothing);
    assert_eq!(t.read, ReadState::Closed);
    assert_eq!(t.write, WriteState::Open);
    assert_eq!(t.close_writer(), CloseWriterAction::Delete);
}

#[test]
fn closing_the_writer_notifies_a_pending_guest_read() {
    let mut t = TransmitState {
        write: WriteState::Open,
        read: ReadState::GuestReady { ty: TableIndex::Stream(3), handle: 9, count: 4 },
    };
    assert_eq!(
        t.close_writer(),
        CloseWriterAction::NotifyGuestReader(ClosedEvent {
            ty: TableIndex::Stream(3),
            count: CLOSED,
            pending: Some(9),
        })
    );
    assert_eq!(t.read, ReadState::Open);
    assert_eq!(t.write, WriteState::Closed);
}

#[test]
fn closing_the_writer_during_a_write_closes_after_it() {
    let mut t = TransmitState {
        write: WriteState::HostReady { post_write: PostWrite::Continue },
        read: ReadState::HostReady,
    };
    assert_eq!(t.close_writer(), CloseWriterAction::EndHostReader);
    assert_eq!(t.write, WriteState::HostReady { post_write: PostWrite::Close });
}

#[test]
fn closing_the_reader_notifies_a_pending_guest_write() {
    let mut t = TransmitState {
        write: WriteState::GuestReady {
            ty: TableIndex::Future(1),
            handle: 4,
            count: 1,
            post_write: PostWrite::Continue,
        },
        read: ReadState::Open,
    };
    assert_eq!(
        t.close_reader(),
        CloseReaderAction::NotifyGuestWriter {
            event: ClosedEvent { ty: TableIndex::Future(1), count: CLOSED, pending: Some(4) },
            delete: false,
        }
    );
    assert_eq!(t.write, WriteState::Open);

    let mut t = TransmitState {
        write: WriteState::GuestReady {
            ty: TableIndex::Future(1),
            handle: 4,
            count: 1,
            post_write: PostWrite::Close,
        },
        read: ReadState::Open,
    };
    assert_eq!(
        t.close_reader(),
        CloseReaderAction::NotifyGuestWriter {
            event: ClosedEvent { ty: TableIndex::Future(1), count: CLOSED, pending: None },
            delete: true,
        }
    );
    let mut t = TransmitState { write: WriteState::HostReady { post_write: PostWrite::Close }, read: ReadState::Open };
    assert_eq!(t.close_reader(), CloseReaderAction::EndHostWriter);
}

#[test]
fn cancelling_pending_operations() {
    let mut t = TransmitState {
        write: WriteState::HostReady { post_write: PostWrite::Continue },
        read: ReadState::GuestReady { ty: TableIndex::Stream(0), handle: 1, count: 1 },
    };
    t.cancel_write();
    assert_eq!(t.write, WriteState::Open);
    t.cancel_read();
    assert_eq!(t.read, ReadState::Open);
    let mut closed = TransmitState { write: WriteState::Closed, read: ReadState::Closed };
    closed.cancel_write();
    closed.cancel_read();
    assert_eq!(closed, TransmitState { write: WriteState::Closed, read: ReadState::Closed });
}

#[test]
fn start_then_cancel_returns_to_idle() {
    let mut s = StreamFutureState::Write;
    assert_eq!(start_write(&mut s), Ok(()));
    assert_eq!(s, StreamFutureState::Busy);
    assert_eq!(guest_cancel_write(&mut s), Ok(()));
    assert_eq!(s, StreamFutureState::Write);

    let mut s = StreamFutureState::Read;
    assert_eq!(start_read(&mut s), Ok(()));
    assert_eq!(guest_cancel_read(&mut s), Ok(()));
    assert_eq!(s, StreamFutureState::Read);
}

#[test]
fn start_then_delivery_returns_to_idle() {
    let mut s = StreamFutureState::Read;
    assert_eq!(start_read(&mut s), Ok(()));
    on_delivery(&mut s, true);
    assert_eq!(s, StreamFutureState::Read);
    let mut s = StreamFutureState::Busy;
    on_delivery(&mut s, false);
    assert_eq!(s, StreamFutureState::Write);
}

#[test]
fn handle_operations_in_the_wrong_state_are_refused() {
    let mut s = StreamFutureState::Read;
    assert_eq!(
        start_write(&mut s),
        Err(HandleError::WrongState { expected: StreamFutureState::Write, got: StreamFutureState::Read })
    );
    let mut b = StreamFutureState::Busy;
    assert_eq!(
        start_read(&mut b),
        Err(HandleError::WrongState { expected: StreamFutureState::Read, got: StreamFutureState::Busy })
    );
    let mut w = StreamFutureState::Write;
    assert_eq!(guest_cancel_write(&mut w), Err(HandleError::NothingPending));
    assert_eq!(guest_cancel_read(&mut w), Err(HandleError::WriteEndGiven));
    assert_eq!(guest_cancel_write(&mut s), Err(HandleError::ReadEndGiven));
    assert_eq!(guest_cancel_read(&mut s), Err(HandleError::NothingPending));
    assert_eq!(s, StreamFutureState::Read);
    assert_eq!(w, StreamFutureState::Write);
}

#[test]
fn close_and_transfer_checks() {
    assert_eq!(check_close_writable(StreamFutureState::Write), Ok(()));
    assert_eq!(check_close_writable(StreamFutureState::Read), Err(HandleError::ReadEndGiven));
    assert_eq!(check_close_writable(StreamFutureState::Busy), Err(HandleError::Busy));
    assert_eq!(check_close_readable(StreamFutureState::Read), Ok(()));
    assert_eq!(check_close_readable(StreamFutureState::Write), Err(HandleError::WriteEndGiven));
    assert_eq!(check_transfer(StreamFutureState::Read), Ok(()));
    assert_eq!(check_transfer(StreamFutureState::Busy), Err(HandleError::Busy));
}

#[test]
fn a_waiting_write_is_met_by_the_next_read() {
    let mut t = TransmitState::new();
    assert_eq!(t.guest_write(TableIndex::Stream(2), 5, 10), GuestWriteOutcome::Blocked);
    assert_eq!(
        t.write,
        WriteState::GuestReady {
            ty: TableIndex::Stream(2),
            handle: 5,
            count: 10,
            post_write: PostWrite::Continue,
        }
    );
    assert_eq!(
        t.guest_read(TableIndex::Stream(2), 6, 4),
        GuestReadOutcome::FromGuestWriter {
            count: 4,
            ty: TableIndex::Stream(2),
            handle: 5,
            pending: true,
        }
    );
    assert_eq!(t, TransmitState::new());
}

#[test]
fn a_waiting_read_is_met_by_the_next_write() {
    let mut t = TransmitState::new();
    assert_eq!(t.guest_read(TableIndex::Future(1), 3, 1), GuestReadOutcome::Blocked);
    assert_eq!(t.read, ReadState::GuestReady { ty: TableIndex::Future(1), handle: 3, count: 1 });
    assert_eq!(
        t.guest_write(TableIndex::Future(1), 4, 1),
        GuestWriteOutcome::ToGuestReader { count: 1, ty: TableIndex::Future(1), handle: 3 }
    );
    assert_eq!(t, TransmitState::new());
}

#[test]
fn guest_operations_against_host_ends_and_closed_ends() {
    let mut t = TransmitState { write: WriteState::Open, read: ReadState::HostReady };
    assert_eq!(t.guest_write(TableIndex::Stream(0), 1, 8), GuestWriteOutcome::ToHostReader);
    assert_eq!(t.read, ReadState::Open);

    let mut t = TransmitState {
        write: WriteState::HostReady { post_write: PostWrite::Close },
        read: ReadState::Open,
    };
    assert_eq!(t.guest_read(TableIndex::Stream(0), 1, 8), GuestReadOutcome::FromHostWriter);
    assert_eq!(t.write, WriteState::Closed);

    let mut t = TransmitState {
        write: WriteState::GuestReady {
            ty: TableIndex::Stream(0),
            handle: 2,
            count: 3,
            post_write: PostWrite::Close,
        },
        read: ReadState::Open,
    };
    assert_eq!(
        t.guest_read(TableIndex::Stream(0), 1, 8),
        GuestReadOutcome::FromGuestWriter { count: 3, ty: TableIndex::Stream(0), handle: 2, pending: false }
    );
    assert_eq!(t.write, WriteState::Closed);

    let mut t = TransmitState { write: WriteState::Open, read: ReadState::Closed };
    assert_eq!(t.guest_write(TableIndex::Stream(0), 1, 8), GuestWriteOutcome::ReaderClosed);
    let mut t = TransmitState { write: WriteState::Closed, read: ReadState::Open };
    assert_eq!(t.guest_read(TableIndex::Stream(0), 1, 8), GuestReadOutcome::WriterClosed);
    assert_eq!(t, TransmitState { write: WriteState::Closed, read: ReadState::Open });
}

#[test]
fn handles_settle_unless_the_operation_waits() {
    let mut s = StreamFutureState::Busy;
    settle_handle(&mut s, true, true);
    assert_eq!(s, StreamFutureState::Busy);
    settle_handle(&mut s, true, false);
    assert_eq!(s, StreamFutureState::Read);
    let mut s = StreamFutureState::Busy;
    settle_handle(&mut s, false, false);
    assert_eq!(s, StreamFutureState::Write);
}

#[test]
fn host_writes_wait_or_meet_a_reader() {
    let mut t = TransmitState::new();
    assert_eq!(t.host_write(PostWrite::Close), (HostWriteOutcome::Blocked, None));
    assert_eq!(t.write, WriteState::HostReady { post_write: PostWrite::Close });

    let mut t = TransmitState {
        write: WriteState::Open,
        read: ReadState::GuestReady { ty: TableIndex::Stream(7), handle: 2, count: 5 },
    };
    assert_eq!(
        t.host_write(PostWrite::Continue),
        (HostWriteOutcome::ToGuestReader { ty: TableIndex::Stream(7), handle: 2, room: 5 }, None)
    );
    assert_eq!(t, TransmitState::new());

    let mut t = TransmitState { write: WriteState::Open, read: ReadState::HostReady };
    assert_eq!(
        t.host_write(PostWrite::Close),
        (HostWriteOutcome::ToHostReader, Some(CloseWriterAction::Nothing))
    );
    assert_eq!(t, TransmitState { write: WriteState::Closed, read: ReadState::Open });

    let mut t = TransmitState { write: WriteState::Open, read: ReadState::Closed };
    assert_eq!(
        t.host_write(PostWrite::Close),
        (HostWriteOutcome::ReaderClosed, Some(CloseWriterAction::Delete))
    );
}

#[test]
fn host_reads_wait_or_meet_a_writer() {
    let mut t = TransmitState::new();
    assert_eq!(t.host_read(), HostReadOutcome::Blocked);
    assert_eq!(t.read, ReadState::HostReady);

    let mut t = TransmitState {
        write: WriteState::GuestReady {
            ty: TableIndex::Future(3),
            handle: 8,
            count: 1,
            post_write: PostWrite::Continue,
        },
        read: ReadState::Open,
    };
    assert_eq!(
        t.host_read(),
        HostReadOutcome::FromGuestWriter { ty: TableIndex::Future(3), handle: 8, offered: 1, pending: true }
    );
    assert_eq!(t, TransmitState::new());

    let mut t = TransmitState {
        write: WriteState::HostReady { post_write: PostWrite::Close },
        read: ReadState::Open,
    };
    assert_eq!(t.host_read(), HostReadOutcome::FromHostWriter);
    assert_eq!(t.write, WriteState::Closed);

    let mut t = TransmitState { write: WriteState::Closed, read: ReadState::Open };
    assert_eq!(t.host_read(), HostReadOutcome::WriterClosed);
}

#[test]
fn delivering_a_pending_event_resets_its_handle() {
    let e = Event::StreamRead { count: 3, pending: Some((4, 9)) };
    let reset = delivery_reset(e).unwrap();
    assert_eq!(reset, HandleReset { ty: TableIndex::Stream(4), handle: 9, is_read: true });
    let mut entry = waitable_state(TableIndex::Stream(4), StreamFutureState::Busy);
    reset_entry(&mut entry, reset);
    assert_eq!(entry, WaitableState::Stream(4, StreamFutureState::Read));

    let reset = delivery_reset(Event::FutureWrite { count: 1, pending: Some((2, 5)) }).unwrap();
    assert_eq!(reset, HandleReset { ty: TableIndex::Future(2), handle: 5, is_read: false });
    let mut entry = WaitableState::Future(2, StreamFutureState::Busy);
    reset_entry(&mut entry, reset);
    assert_eq!(entry, WaitableState::Future(2, StreamFutureState::Write));

    assert_eq!(delivery_reset(Event::StreamWrite { count: CLOSED, pending: None }), None);
    assert_eq!(delivery_reset(Event::Subtask { status: Status::Returned }), None);
    assert_eq!(delivery_reset(Event::Cancelled), None);
}
