use wasip3::body::Buffered::{Data, NoTrailers, Nothing, TrailerError, TrailerFields};
use wasip3::body::Presence::{Absent, Present, Tombstone};
use wasip3::body::{
    checked_size_hint, clone_trailer_result, finish_guest_body, finish_outgoing, length_error, outgoing_size_hint,
    outgoing_scheme, plan_body_task, plan_response, plan_send, record_guest_chunk,
    record_outgoing_chunk, BodyContext, BodyPlan, BodyShape, Buffered, ContentLength, ErrorCode,
    LengthCheck, MaybeTombstone, Polled, Presence, ResponsePlan, SendPlan, SizeHint, Verdict,
};

#[test]
fn body_size_error_follows_the_context() {
    assert_eq!(
        BodyContext::Request.as_body_size_error(7),
        ErrorCode::HttpRequestBodySize(Some(7))
    );
    assert_eq!(
        BodyContext::Response.as_body_size_error(0),
        ErrorCode::HttpResponseBodySize(Some(0))
    );
}

#[test]
fn content_length_starts_with_nothing_sent() {
    assert_eq!(ContentLength::new(42), ContentLength { limit: 42, sent: 0 });
}

#[test]
fn maybe_tombstone_presence() {
    assert_eq!(MaybeTombstone::Present(3u8).presence(), Presence::Present);
    assert_eq!(MaybeTombstone::<u8>::Tombstone.presence(), Presence::Tombstone);
    assert_eq!(MaybeTombstone::<u8>::Absent.presence(), Presence::Absent);
}

#[test]
fn outgoing_chunks_count_towards_the_limit() {
    let mut cl = Some(ContentLength::new(10));
    assert_eq!(record_outgoing_chunk(&mut cl, 4), Ok(()));
    assert_eq!(record_outgoing_chunk(&mut cl, 6), Ok(()));
    assert_eq!(cl, Some(ContentLength { limit: 10, sent: 10 }));
    assert_eq!(finish_outgoing(cl), Ok(()));
}

#[test]
fn outgoing_chunk_past_the_limit_is_refused_with_the_total() {
    let mut cl = Some(ContentLength { limit: 10, sent: 8 });
    assert_eq!(
        record_outgoing_chunk(&mut cl, 3),
        Err(ErrorCode::HttpRequestBodySize(Some(11)))
    );
    assert_eq!(cl, Some(ContentLength { limit: 10, sent: 8 }));
}

#[test]
fn outgoing_chunk_that_overflows_reports_no_size() {
    let mut cl = Some(ContentLength { limit: u64::MAX, sent: u64::MAX - 1 });
    assert_eq!(record_outgoing_chunk(&mut cl, 2), Err(ErrorCode::HttpRequestBodySize(None)));
}

#[test]
fn outgoing_body_without_content_length_takes_anything() {
    let mut cl = None;
    assert_eq!(record_outgoing_chunk(&mut cl, usize::MAX), Ok(()));
    assert_eq!(cl, None);
    assert_eq!(finish_outgoing(None), Ok(()));
}

#[test]
fn outgoing_body_ending_short_is_refused() {
    assert_eq!(
        finish_outgoing(Some(ContentLength { limit: 5, sent: 3 })),
        Err(ErrorCode::HttpRequestBodySize(Some(3)))
    );
}

#[test]
fn size_hints() {
    let h = SizeHint::unknown();
    assert_eq!((h.lower(), h.upper()), (0, None));
    let h = SizeHint::with_exact(9);
    assert_eq!((h.lower(), h.upper()), (9, Some(9)));
    assert!(SizeHint::with_bounds(5, Some(4)).is_none());
    let h = SizeHint::with_bounds(4, Some(5)).unwrap();
    assert_eq!((h.lower(), h.upper()), (4, Some(5)));
}

#[test]
fn outgoing_size_hint_is_what_the_limit_leaves() {
    let h = outgoing_size_hint(Some(ContentLength { limit: 10, sent: 4 }));
    assert_eq!((h.lower(), h.upper()), (6, Some(6)));
    let h = outgoing_size_hint(Some(ContentLength { limit: 3, sent: 4 }));
    assert_eq!((h.lower(), h.upper()), (0, Some(0)));
    let h = outgoing_size_hint(None);
    assert_eq!((h.lower(), h.upper()), (0, None));
}

#[test]
fn checked_size_hint_narrows_to_the_limit() {
    let cl = Some(ContentLength { limit: 10, sent: 2 });
    let h = checked_size_hint(SizeHint::unknown(), cl);
    assert_eq!((h.lower(), h.upper()), (0, Some(8)));
    let h = checked_size_hint(SizeHint::with_bounds(1, Some(5)).unwrap(), cl);
    assert_eq!((h.lower(), h.upper()), (1, Some(5)));
    let h = checked_size_hint(SizeHint::with_exact(20), cl);
    assert_eq!((h.lower(), h.upper()), (8, Some(8)));
    let h = checked_size_hint(SizeHint::with_bounds(3, Some(7)).unwrap(), None);
    assert_eq!((h.lower(), h.upper()), (3, Some(7)));
}

#[test]
fn length_check_reports_a_long_body_once() {
    let mut check = LengthCheck::new(Some(ContentLength::new(4)));
    assert_eq!(check.observe(Polled::Data(3)), Verdict::Forward);
    assert!(!check.is_stopped());
    assert_eq!(check.observe(Polled::Data(3)), Verdict::TooLong(6));
    assert!(check.is_stopped());
    assert_eq!(length_error(Verdict::TooLong(6)), Some(ErrorCode::HttpRequestBodySize(Some(6))));
}

#[test]
fn length_check_reports_a_short_body_at_its_end() {
    let mut check = LengthCheck::new(Some(ContentLength::new(4)));
    assert_eq!(check.observe(Polled::Data(1)), Verdict::Forward);
    assert_eq!(check.observe(Polled::Other), Verdict::Forward);
    assert_eq!(check.observe(Polled::End), Verdict::TooShort(1));
    assert!(check.is_stopped());
    assert_eq!(length_error(Verdict::TooShort(1)), Some(ErrorCode::HttpRequestBodySize(Some(1))));
}

#[test]
fn length_check_accepts_an_exact_body_and_unchecked_ones() {
    let mut check = LengthCheck::new(Some(ContentLength::new(2)));
    assert_eq!(check.observe(Polled::Data(2)), Verdict::Forward);
    assert_eq!(check.observe(Polled::End), Verdict::Forward);
    assert!(!check.is_stopped());
    let mut unchecked = LengthCheck::new(None);
    assert_eq!(unchecked.observe(Polled::Data(100)), Verdict::Forward);
    assert_eq!(unchecked.observe(Polled::Error), Verdict::Forward);
    assert_eq!(length_error(Verdict::Forward), None);
}

fn guest(contents: Presence, trailers: Presence, buffer: Buffered, cl: Option<ContentLength>) -> BodyShape {
    BodyShape::Guest { contents, trailers, buffer, content_length: cl }
}

#[test]
fn body_task_plans() {
    let short = Some(ContentLength { limit: 5, sent: 2 });
    assert_eq!(plan_body_task(guest(Absent, Present, Nothing, short)), BodyPlan::SizeError(2));
    assert_eq!(plan_body_task(guest(Absent, Present, Nothing, None)), BodyPlan::ForwardGuestTrailers);
    assert_eq!(plan_body_task(guest(Absent, Absent, TrailerFields, None)), BodyPlan::ForwardBufferedTrailers);
    assert_eq!(plan_body_task(guest(Present, Present, Data, short)), BodyPlan::StreamGuest { resume: true });
    assert_eq!(plan_body_task(guest(Present, Present, Nothing, None)), BodyPlan::StreamGuest { resume: false });
    assert_eq!(plan_body_task(guest(Tombstone, Present, Nothing, None)), BodyPlan::CorruptedGuest);
    assert_eq!(plan_body_task(BodyShape::Host { has_stream: true, buffer: Data }), BodyPlan::StreamHost { resume: true });
    assert_eq!(plan_body_task(BodyShape::Host { has_stream: false, buffer: TrailerError }), BodyPlan::ForwardHostTrailers);
    assert_eq!(plan_body_task(BodyShape::Host { has_stream: false, buffer: Nothing }), BodyPlan::CorruptedHost);
    assert_eq!(plan_body_task(BodyShape::Consumed), BodyPlan::Consumed);
}

#[test]
fn send_plans() {
    let short = Some(ContentLength { limit: 5, sent: 2 });
    assert_eq!(plan_send(guest(Absent, Absent, NoTrailers, short)), SendPlan::SizeError(2));
    assert_eq!(plan_send(guest(Absent, Absent, NoTrailers, None)), SendPlan::Empty { guest: true });
    assert_eq!(plan_send(guest(Absent, Absent, TrailerFields, None)), SendPlan::BufferedTrailers { guest: true });
    assert_eq!(plan_send(guest(Absent, Absent, TrailerError, None)), SendPlan::BufferedError { guest: true });
    assert_eq!(plan_send(guest(Absent, Present, Nothing, None)), SendPlan::GuestTrailers);
    assert_eq!(plan_send(guest(Present, Present, Data, None)), SendPlan::StreamGuest { resume: true });
    assert_eq!(plan_send(guest(Present, Present, TrailerFields, None)), SendPlan::CorruptedGuest);
    assert_eq!(plan_send(guest(Absent, Absent, TrailerFields, Some(ContentLength { limit: 0, sent: 0 }))), SendPlan::CorruptedGuest);
    assert_eq!(plan_send(BodyShape::Host { has_stream: true, buffer: Nothing }), SendPlan::StreamHost { resume: false });
    assert_eq!(plan_send(BodyShape::Host { has_stream: false, buffer: TrailerFields }), SendPlan::BufferedTrailers { guest: false });
    assert_eq!(plan_send(BodyShape::Host { has_stream: false, buffer: NoTrailers }), SendPlan::Empty { guest: false });
    assert_eq!(plan_send(BodyShape::Host { has_stream: false, buffer: TrailerError }), SendPlan::BufferedError { guest: false });
    assert_eq!(plan_send(BodyShape::Host { has_stream: true, buffer: NoTrailers }), SendPlan::CorruptedHost);
    assert_eq!(plan_send(BodyShape::Consumed), SendPlan::Empty { guest: false });
}

#[test]
fn response_plans() {
    assert_eq!(
        plan_response(guest(Absent, Present, Nothing, Some(ContentLength { limit: 5, sent: 2 }))),
        ResponsePlan::LengthMismatch { limit: 5, sent: 2 }
    );
    let exact = Some(ContentLength { limit: 3, sent: 3 });
    assert_eq!(plan_response(guest(Absent, Absent, NoTrailers, exact)), ResponsePlan::Empty { guest: true });
    assert_eq!(plan_response(guest(Absent, Absent, TrailerFields, exact)), ResponsePlan::BufferedTrailers { guest: true });
    assert_eq!(plan_response(guest(Absent, Absent, TrailerError, None)), ResponsePlan::BufferedError { guest: true });
    assert_eq!(plan_response(guest(Absent, Present, Nothing, exact)), ResponsePlan::GuestTrailers);
    assert_eq!(plan_response(guest(Present, Present, Nothing, None)), ResponsePlan::StreamGuest { resume: false });
    assert_eq!(plan_response(guest(Present, Absent, Nothing, None)), ResponsePlan::CorruptedGuest);
    assert_eq!(plan_response(BodyShape::Host { has_stream: true, buffer: Data }), ResponsePlan::StreamHost { resume: true });
    assert_eq!(plan_response(BodyShape::Host { has_stream: false, buffer: Data }), ResponsePlan::CorruptedHost);
    assert_eq!(plan_response(BodyShape::Consumed), ResponsePlan::Empty { guest: false });
}

#[test]
fn outgoing_scheme_choice() {
    assert_eq!(outgoing_scheme(None, Some("https"), false), Ok(Ok("https")));
    assert_eq!(outgoing_scheme::<&str>(None, None, true), Err(ErrorCode::HttpProtocolError));
    assert_eq!(outgoing_scheme(Some("http"), Some("https"), true), Ok(Ok("http")));
    assert_eq!(
        outgoing_scheme(Some("ftp"), Some("https"), false),
        Ok(Err(ErrorCode::HttpProtocolError))
    );
}

#[test]
fn guest_chunks_count_towards_the_limit() {
    let mut cl = Some(ContentLength::new(3));
    assert_eq!(record_guest_chunk(BodyContext::Response, &mut cl, 2), Ok(()));
    assert_eq!(
        record_guest_chunk(BodyContext::Response, &mut cl, 2),
        Err(ErrorCode::HttpResponseBodySize(Some(4)))
    );
    assert_eq!(cl, Some(ContentLength { limit: 3, sent: 2 }));
    assert_eq!(
        finish_guest_body(BodyContext::Response, cl),
        Err(ErrorCode::HttpResponseBodySize(Some(2)))
    );
    assert_eq!(record_guest_chunk(BodyContext::Request, &mut cl, 1), Ok(()));
    assert_eq!(finish_guest_body(BodyContext::Request, cl), Ok(()));
}

#[test]
fn guest_chunk_overflow_reports_the_largest_size() {
    let mut cl = Some(ContentLength { limit: u64::MAX, sent: u64::MAX });
    assert_eq!(
        record_guest_chunk(BodyContext::Request, &mut cl, 1),
        Err(ErrorCode::HttpRequestBodySize(Some(u64::MAX)))
    );
}

#[test]
fn trailer_results_are_copied() {
    assert_eq!(clone_trailer_result(&Ok(Some(4))), Ok(Some(4)));
    assert_eq!(clone_trailer_result(&Ok(None)), Ok(None));
    assert_eq!(
        clone_trailer_result(&Err(ErrorCode::HttpProtocolError)),
        Err(ErrorCode::HttpProtocolError)
    );
}
