use std::collections::HashMap;

use wasip3::abi::{
    waitable_check_answer, waitable_check_step, CheckError, CheckKind, CheckStep, Event,
    PointerError, Status, CLOSED,
};
use wasip3::body::{
    forward_host_frames, length_mismatch_message, outgoing_head, take_body_shape, BodyPlan,
    BodyShape, ContentLength, ErrorCode, HostFrame, LengthCheck, Polled, Presence, Buffered,
    Verdict,
};
use wasip3::buffers::{accept_end_writer, accept_host_writer, Single, ReadBuffer};
use wasip3::calls::{finish_start, first_poll_action, register_call, CannotEnterComponent, FirstPollAction};
use wasip3::cli::I32Exit;
use wasip3::guest_task::{
    after_cancel_sent, cancel_host_task, cancel_unstarted, AfterCancelSent, AlreadyDelivered,
    Caller, StartState, TaskLink,
};
use wasip3::request::{Method, Scheme};
use wasip3::tasks::TaskTable;
use wasip3::transmit::{
    CloseReaderAction, CloseWriterAction, ReadState, TransmitState, Watchers, WriteState,
};
use wasip3::waitables::KeySet;

#[test]
fn exit_messages_are_built_digit_by_digit() {
    assert_eq!(I32Exit(0).to_string(), "Exited with i32 exit status 0");
    assert_eq!(I32Exit(i32::MIN).to_string(), "Exited with i32 exit status -2147483648");
    assert_eq!(I32Exit(i32::MAX).to_string(), "Exited with i32 exit status 2147483647");
}

#[test]
fn outgoing_request_heads() {
    let head = outgoing_head(Method::Post, Some(Scheme::Https), None, true, Some("example.com"), Some("/a?b=1"))
        .unwrap()
        .unwrap();
    assert!(matches!(head.method, Method::Post));
    assert_eq!(head.uri, "https://example.com/a?b=1");
    let head = outgoing_head(Method::Get, None, Some(Scheme::Http), false, Some("h:8080"), Some("/"))
        .unwrap()
        .unwrap();
    assert_eq!(head.uri, "http://h:8080/");
    assert_eq!(
        outgoing_head(Method::Get, Some(Scheme::Other(b"ftp".to_vec())), None, false, Some("h"), None)
            .unwrap()
            .err(),
        Some(ErrorCode::HttpProtocolError)
    );
    assert_eq!(
        outgoing_head(Method::Get, None, None, true, Some("h"), None).err(),
        Some(ErrorCode::HttpProtocolError)
    );
    assert_eq!(
        outgoing_head(Method::Get, Some(Scheme::Http), None, true, None, Some("/")).unwrap().err(),
        Some(ErrorCode::HttpRequestUriInvalid)
    );
}

#[test]
fn response_length_mismatch_message() {
    assert_eq!(
        length_mismatch_message(10, 7),
        "guest response Content-Length mismatch, limit: 10, sent: 7"
    );
}

#[test]
fn host_body_frames_are_forwarded_in_order() {
    let frames = vec![
        HostFrame::Data(b"ab".to_vec()),
        HostFrame::Data(b"cd".to_vec()),
        HostFrame::End,
        HostFrame::Data(b"ignored".to_vec()),
    ];
    assert_eq!(forward_host_frames(&frames), (b"abcd".to_vec(), Some(Ok(None))));
    let frames = vec![HostFrame::Data(b"x".to_vec()), HostFrame::Failed(ErrorCode::ConnectionReadTimeout)];
    assert_eq!(forward_host_frames(&frames), (b"x".to_vec(), Some(Err(ErrorCode::ConnectionReadTimeout))));
    assert_eq!(forward_host_frames(&vec![HostFrame::Trailers(5)]), (vec![], Some(Ok(Some(5)))));
    assert_eq!(forward_host_frames(&vec![HostFrame::Unknown]), (vec![], Some(Err(ErrorCode::HttpProtocolError))));
    assert_eq!(forward_host_frames(&vec![HostFrame::Data(b"y".to_vec())]), (b"y".to_vec(), None));
}

#[test]
fn a_size_error_leaves_the_body_consumed_and_closes_contents() {
    let mut slot = BodyShape::Guest {
        contents: Presence::Absent,
        trailers: Presence::Absent,
        buffer: Buffered::Nothing,
        content_length: Some(ContentLength { limit: 5, sent: 3 }),
    };
    let taken = take_body_shape(&mut slot);
    assert_eq!(slot, BodyShape::Consumed);
    assert!(matches!(taken, BodyShape::Guest { .. }));
    let plan = BodyPlan::SizeError(3);
    assert!(plan.closes_contents_at_once());
    assert!(!plan.may_restore_body());
    assert!(!BodyPlan::StreamGuest { resume: false }.closes_contents_at_once());
    assert!(BodyPlan::StreamHost { resume: true }.may_restore_body());
}

#[test]
fn length_checks_over_many_polls() {
    let mut check = LengthCheck::new(Some(ContentLength { limit: 5, sent: 0 }));
    let polls = vec![Polled::Data(2), Polled::Other, Polled::Data(3), Polled::End];
    assert_eq!(check.observe_all(&polls), vec![Verdict::Forward; 4]);

    let mut check = LengthCheck::new(Some(ContentLength { limit: 5, sent: 0 }));
    let polls = vec![Polled::Data(4), Polled::Data(4), Polled::End];
    assert_eq!(check.observe_all(&polls), vec![Verdict::Forward, Verdict::TooLong(8)]);
    assert!(check.is_stopped());

    let mut check = LengthCheck::new(Some(ContentLength { limit: 5, sent: 0 }));
    assert_eq!(
        check.observe_all(&vec![Polled::Data(1), Polled::End]),
        vec![Verdict::Forward, Verdict::TooShort(1)]
    );
}

#[test]
fn host_readers_meet_host_writers_and_the_end() {
    let mut src = Single::new(7u32);
    let (res, n) = accept_host_writer(&mut src, Single::<u32>::empty());
    assert_eq!(n, 1);
    assert!(!res.closed);
    assert_eq!(res.buffer.remaining_capacity(), 0);
    let (res, code) = accept_end_writer(Single::<u32>::empty());
    assert!(res.closed);
    assert_eq!(res.buffer.remaining_capacity(), 1);
    assert_eq!(code, CLOSED);
    assert_eq!(code, 0x8000_0000);
}

#[test]
fn cancelling_subtasks() {
    let mut handle = Some("abort");
    assert_eq!(cancel_host_task(&mut handle), Some(("abort", 4)));
    assert_eq!(handle, None);
    assert_eq!(cancel_host_task(&mut handle), None);

    let mut task = StartState { lower_pending: true, lift_pending: true };
    assert_eq!(cancel_unstarted(&mut task, true), Ok(3));
    assert_eq!(task, StartState { lower_pending: false, lift_pending: false });
    let mut task = StartState { lower_pending: true, lift_pending: true };
    assert_eq!(cancel_unstarted(&mut task, false), Err(AlreadyDelivered));

    assert_eq!(after_cancel_sent(true, true), AfterCancelSent::Blocked);
    assert_eq!(after_cancel_sent(true, false), AfterCancelSent::Wait);
    assert_eq!(after_cancel_sent(false, true), AfterCancelSent::ReadStatus);
}

#[test]
fn preparing_and_finishing_guest_calls() {
    let mut tasks: HashMap<u32, TaskLink> = HashMap::new();
    tasks.insert(1, TaskLink { instance: 10, caller: Caller::Host });
    let mut current = Some(1);
    let mut subtasks = KeySet::new();
    assert_eq!(register_call(&mut tasks, &mut current, &mut subtasks, 2, 10, 20), Ok(()));
    assert_eq!(current, Some(2));
    assert!(subtasks.contains(2));
    assert_eq!(tasks[&2], TaskLink { instance: 20, caller: Caller::Guest { task: 1, instance: 10 } });

    let mut subtasks3 = KeySet::new();
    assert_eq!(
        register_call(&mut tasks, &mut current, &mut subtasks3, 3, 20, 10),
        Err(CannotEnterComponent)
    );
    assert_eq!(current, None);
    assert!(tasks.contains_key(&3));
    assert!(!subtasks3.contains(3));

    let mut current = None;
    assert_eq!(finish_start(&mut current, 1, Status::Returned, None), 2);
    assert_eq!(current, Some(1));
    assert_eq!(finish_start(&mut current, 1, Status::Started, Some(5)), 5 * 16 + 1);

    assert_eq!(first_poll_action(true), FirstPollAction::LowerAndDelete);
    assert_eq!(first_poll_action(false), FirstPollAction::QueueWithHandle);
}

#[test]
fn waitable_checks() {
    assert_eq!(waitable_check_step(true, CheckKind::Poll, false, true), Err(CheckError::AsyncUnsupported));
    assert_eq!(waitable_check_step(false, CheckKind::Wait, true, true), Err(CheckError::WaitWithCallback));
    assert_eq!(waitable_check_step(false, CheckKind::Wait, false, false), Ok(CheckStep::SuspendThenDeliver));
    assert_eq!(waitable_check_step(false, CheckKind::Wait, false, true), Ok(CheckStep::Deliver));
    assert_eq!(waitable_check_step(false, CheckKind::Poll, false, false), Ok(CheckStep::Deliver));
    assert_eq!(waitable_check_step(false, CheckKind::Yield, false, false), Ok(CheckStep::Done));

    let mut memory = vec![0xffu8; 16];
    assert_eq!(waitable_check_answer(CheckKind::Poll, &mut memory, 4, None), Ok(0));
    assert_eq!(&memory[4..12], &[0u8; 8]);
    assert_eq!(
        waitable_check_answer(CheckKind::Poll, &mut memory, 2, None),
        Err(CheckError::Payload(PointerError::NotAligned))
    );
    assert_eq!(
        waitable_check_answer(CheckKind::Poll, &mut memory, 12, None),
        Err(CheckError::Payload(PointerError::OutOfBounds))
    );
    assert_eq!(
        waitable_check_answer(CheckKind::Wait, &mut memory, 0, Some((Event::Subtask { status: Status::Returned }, 7))),
        Ok(1)
    );
    assert_eq!(&memory[0..8], &[7, 0, 0, 0, 2, 0, 0, 0]);
    let before = memory.clone();
    assert_eq!(waitable_check_answer(CheckKind::Yield, &mut memory, 0, None), Ok(0));
    assert_eq!(memory, before);
}

#[test]
fn closing_a_host_end_drops_its_watcher() {
    let mut t = TransmitState::new();
    let mut w: Watchers<&str> = Watchers { writer: None, reader: None };
    assert_eq!(t.watch_reader(&mut w, "writer watches"), None);
    assert_eq!(t.watch_writer(&mut w, "reader watches"), None);
    assert_eq!(t.host_close_writer(&mut w), (CloseWriterAction::Nothing, Some("reader watches")));
    assert_eq!(w.writer, None);
    assert_eq!(t.write, WriteState::Closed);
    assert_eq!(t.watch_writer(&mut w, "late"), Some("late"));
    assert_eq!(t.host_close_reader(&mut w), (CloseReaderAction::Delete, Some("writer watches")));
    assert_eq!(w.reader, None);
    assert_eq!(t.read, ReadState::Closed);
}

#[test]
fn pushes_from_a_new_table_take_ids_in_order() {
    let mut table: TaskTable<&str> = TaskTable::default();
    assert_eq!(table.push_all(vec!["a", "b", "c"]), vec![Some(0), Some(1), Some(2)]);
    assert_eq!(table.remove(1), Some("b"));
    assert_eq!(table.push_all(vec!["d", "e"]), vec![Some(1), Some(3)]);
}

#[test]
fn a_length_mismatch_is_reported_once_then_the_check_stops() {
    let mut check = LengthCheck::new(Some(ContentLength { limit: 3, sent: 0 }));
    let polls = vec![Polled::Data(1), Polled::Data(1), Polled::Data(5), Polled::Data(1), Polled::End];
    assert_eq!(check.observe_all(&polls), vec![Verdict::Forward, Verdict::Forward, Verdict::TooLong(7)]);
    let mut check = LengthCheck::new(None);
    assert_eq!(check.observe_all(&polls), vec![Verdict::Forward; 5]);
}
