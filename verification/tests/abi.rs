use wasip3::abi::{
    deliver_event, unpack_callback_code, unpack_status, validate_inbounds, Event, PointerError,
    Status, BLOCKED, CALLBACK_WAIT, CLOSED, EVENT_FUTURE_READ, EVENT_NONE, EVENT_SUBTASK,
};

#[test]
fn status_codes_follow_the_canonical_abi() {
    assert_eq!(Status::Starting.code(), 0);
    assert_eq!(Status::Started.code(), 1);
    assert_eq!(Status::Returned.code(), 2);
    assert_eq!(Status::StartCancelled.code(), 3);
    assert_eq!(Status::ReturnCancelled.code(), 4);
}

#[test]
fn pack_puts_the_waitable_above_the_status() {
    assert_eq!(Status::Returned.pack(None), 2);
    assert_eq!(Status::Started.pack(Some(5)), 5 * 16 + 1);
    assert_eq!(Status::Starting.pack(Some(0x0fff_ffff)), 0xffff_fff0);
}

#[test]
fn pack_then_unpack_gives_back_status_and_waitable() {
    let word = Status::StartCancelled.pack(Some(77));
    assert_eq!(unpack_status(word), (3, 77));
    let word = Status::Returned.pack(None);
    assert_eq!(unpack_status(word), (2, 0));
}

#[test]
fn callback_codes_split_into_code_and_set() {
    assert_eq!(unpack_callback_code(CALLBACK_WAIT | (9 << 4)), (CALLBACK_WAIT, 9));
    assert_eq!(unpack_callback_code(0x35), (5, 3));
}

#[test]
fn sentinel_words() {
    assert_eq!(BLOCKED, 0xffff_ffff);
    assert_eq!(CLOSED, 0x8000_0000);
}

#[test]
fn event_parts_give_code_and_payload() {
    assert_eq!(Event::NoEvent.parts(), (EVENT_NONE, 0));
    assert_eq!(Event::Cancelled.parts(), (6, 0));
    assert_eq!(Event::Subtask { status: Status::Returned }.parts(), (EVENT_SUBTASK, 2));
    assert_eq!(Event::StreamRead { count: 7, pending: None }.parts(), (2, 7));
    assert_eq!(Event::StreamWrite { count: 8, pending: Some((1, 2)) }.parts(), (3, 8));
    assert_eq!(Event::FutureRead { count: 0, pending: None }.parts(), (EVENT_FUTURE_READ, 0));
    assert_eq!(Event::FutureWrite { count: 1, pending: None }.parts(), (5, 1));
}

#[test]
fn validate_inbounds_accepts_aligned_pointers_inside_memory() {
    let memory = vec![0u8; 16];
    assert_eq!(validate_inbounds(&memory, 8, 4, 8), Ok(8));
    assert_eq!(validate_inbounds(&memory, 0, 8, 16), Ok(0));
}

#[test]
fn validate_inbounds_refuses_misaligned_pointers() {
    let memory = vec![0u8; 16];
    assert_eq!(validate_inbounds(&memory, 2, 4, 4), Err(PointerError::NotAligned));
}

#[test]
fn validate_inbounds_refuses_pointers_past_the_end() {
    let memory = vec![0u8; 16];
    assert_eq!(validate_inbounds(&memory, 12, 4, 8), Err(PointerError::OutOfBounds));
    assert_eq!(validate_inbounds(&memory, 16, 4, 1), Err(PointerError::OutOfBounds));
}

#[test]
fn validate_inbounds_refuses_sizes_that_overflow() {
    let memory = vec![0u8; 16];
    assert_eq!(validate_inbounds(&memory, 4, 4, usize::MAX), Err(PointerError::SizeOverflow));
}

#[test]
fn deliver_event_writes_handle_and_payload_little_endian() {
    let mut memory = vec![0xaau8; 16];
    let code = deliver_event(
        &mut memory,
        4,
        Some((Event::StreamRead { count: 0x0102_0304, pending: None }, 0x11)),
    );
    assert_eq!(code, Ok(2));
    assert_eq!(
        memory,
        vec![0xaa, 0xaa, 0xaa, 0xaa, 0x11, 0, 0, 0, 4, 3, 2, 1, 0xaa, 0xaa, 0xaa, 0xaa]
    );
}

#[test]
fn deliver_event_without_event_writes_zeros() {
    let mut memory = vec![0xffu8; 8];
    assert_eq!(deliver_event(&mut memory, 0, None), Ok(0));
    assert_eq!(memory, vec![0u8; 8]);
}

#[test]
fn deliver_event_leaves_memory_alone_on_a_bad_pointer() {
    let mut memory = vec![7u8; 8];
    assert_eq!(deliver_event(&mut memory, 2, None), Err(PointerError::NotAligned));
    assert_eq!(deliver_event(&mut memory, 4, None), Err(PointerError::OutOfBounds));
    assert_eq!(memory, vec![7u8; 8]);
}
