use wasip3::buffers::{
    check_guest_list, flat_copy, reader_accept_count, transfer, CopyError, writer_accept_count, GuestListError, ReadBuffer, Single,
    VecBuffer, WriteBuffer,
};
use wasip3::cli::{exit_status, exit_with_code, terminal_input, terminal_output, I32Exit};
use wasip3::request::{
    set_authority, set_path_with_query,
    get_timeout, method_from_name, scheme_from_name, set_method, set_scheme, set_status_code,
    set_timeout, DurationTooLong, Method, RequestOptions, RequestOptionsError, Scheme,
};
use wasip3::sockets::{
    decide_attempt, map_udp_bind_error, Attempt, CorruptedState, ErrorCode, SocketAddressFamily,
    TcpPhase, TcpState, UdpSocketState, UdpState,
};
use wasip3::with_children::WithChildren;

#[test]
fn exit_statuses() {
    assert_eq!(exit_status(Ok(())), I32Exit(0));
    assert_eq!(exit_status(Err(())), I32Exit(1));
    assert_eq!(exit_with_code(42), I32Exit(42));
    assert_eq!(exit_with_code(255), I32Exit(255));
}

#[test]
fn exit_message() {
    assert_eq!(I32Exit(3).to_string(), "Exited with i32 exit status 3");
    assert_eq!(I32Exit(-12).to_string(), "Exited with i32 exit status -12");
}

#[test]
fn terminals() {
    assert!(terminal_input(true).is_some());
    assert!(terminal_input(false).is_none());
    assert!(terminal_output(true).is_some());
    assert!(terminal_output(false).is_none());
}

#[test]
fn single_buffer_holds_one_item() {
    let mut s = Single::new(5);
    assert_eq!(s.remaining(), 1);
    assert_eq!(WriteBuffer::take(&mut s, 1), vec![5]);
    assert_eq!(s.remaining(), 0);
    assert_eq!(s.remaining_capacity(), 1);
    s.copy_from(vec![9]);
    assert_eq!(s.remaining_capacity(), 0);
    assert_eq!(s.take(), Some(9));
    let mut e = Single::<u8>::empty();
    assert_eq!(e.remaining(), 0);
    assert_eq!(WriteBuffer::take(&mut e, 0), Vec::<u8>::new());
    assert_eq!(e.take(), None);
}

#[test]
fn vec_buffer_writes_in_order() {
    let mut b = VecBuffer::from_vec(vec![1, 2, 3, 4]);
    assert_eq!(b.remaining(), 4);
    assert_eq!(*b.get(2), 3);
    assert_eq!(b.take(2), vec![1, 2]);
    b.skip(1);
    assert_eq!(b.take(1), vec![4]);
    assert_eq!(b.remaining(), 0);
    let mut c = VecBuffer::<u8>::with_capacity(8);
    assert_eq!(c.remaining(), 0);
    let mut d = VecBuffer::from_vec(vec![7u8]);
    d.reset();
    assert_eq!(d.remaining(), 0);
    c.reset();
}

#[test]
fn transfer_moves_what_fits() {
    let mut src = VecBuffer::from_vec(vec![10, 20, 30]);
    let mut dst = Single::empty();
    assert_eq!(transfer(&mut src, &mut dst), 1);
    assert_eq!(src.remaining(), 2);
    assert_eq!(dst.take(), Some(10));
    assert_eq!(transfer(&mut src, &mut dst), 1);
    assert_eq!(dst.take(), Some(20));
}

#[test]
fn methods_by_name() {
    assert!(matches!(method_from_name(b"GET"), Method::Get));
    assert!(matches!(method_from_name(b"PATCH"), Method::Patch));
    assert!(matches!(method_from_name(b"get"), Method::Other(ref n) if n.as_slice() == b"get"));
    let mut m = Method::Get;
    assert_eq!(set_method(&mut m, Method::Other(b"POST".to_vec())), Ok(()));
    assert!(matches!(m, Method::Post));
    assert_eq!(set_method(&mut m, Method::Other(b"PURGE".to_vec())), Ok(()));
    assert!(matches!(m, Method::Other(ref n) if n.as_slice() == b"PURGE"));
    assert_eq!(set_method(&mut m, Method::Other(b"BAD METHOD".to_vec())), Err(()));
    assert!(matches!(m, Method::Other(ref n) if n.as_slice() == b"PURGE"));
    assert_eq!(set_method(&mut m, Method::Other(Vec::new())), Err(()));
    assert_eq!(set_method(&mut m, Method::Delete), Ok(()));
    assert!(matches!(m, Method::Delete));
}

#[test]
fn schemes_by_name() {
    assert!(matches!(scheme_from_name(b"https"), Scheme::Https));
    assert!(matches!(scheme_from_name(b"HTTP"), Scheme::Other(_)));
    let mut s = None;
    assert_eq!(set_scheme(&mut s, Some(Scheme::Other(b"http".to_vec()))), Ok(()));
    assert!(matches!(s, Some(Scheme::Http)));
    assert_eq!(set_scheme(&mut s, Some(Scheme::Other(b"wss".to_vec()))), Ok(()));
    assert!(matches!(s, Some(Scheme::Other(ref n)) if n.as_slice() == b"wss"));
    assert_eq!(set_scheme(&mut s, Some(Scheme::Other(b"a:b".to_vec()))), Err(()));
    assert!(matches!(s, Some(Scheme::Other(_))));
    assert_eq!(set_scheme(&mut s, Some(Scheme::Other(vec![b'a'; 65]))), Err(()));
    assert_eq!(set_scheme(&mut s, None), Ok(()));
    assert!(s.is_none());
}

#[test]
fn status_codes() {
    let mut code = 200;
    assert_eq!(set_status_code(&mut code, 404), Ok(()));
    assert_eq!(code, 404);
    assert_eq!(set_status_code(&mut code, 99), Err(()));
    assert_eq!(set_status_code(&mut code, 1000), Err(()));
    assert_eq!(set_status_code(&mut code, 999), Ok(()));
    assert_eq!(code, 999);
}

#[test]
fn request_option_timeouts() {
    let mut opts = RequestOptions::default();
    assert_eq!(get_timeout(opts.connect_timeout), Ok(None));
    assert_eq!(set_timeout(&mut opts.connect_timeout, true, Some(1_000)), Ok(()));
    assert_eq!(get_timeout(opts.connect_timeout), Ok(Some(1_000)));
    assert_eq!(
        set_timeout(&mut opts.first_byte_timeout, false, Some(5)),
        Err(RequestOptionsError::Immutable)
    );
    assert_eq!(opts.first_byte_timeout, None);
    assert_eq!(set_timeout(&mut opts.connect_timeout, true, None), Ok(()));
    assert_eq!(opts.connect_timeout, None);
    assert_eq!(get_timeout(Some(u64::MAX as u128 + 1)), Err(DurationTooLong));
}

#[test]
fn tcp_bind_then_connect() {
    let mut s: TcpState<&str, (), u8> = TcpState::Default("sock");
    let taken = s.begin_bind();
    assert_eq!(taken, Some("sock"));
    assert_eq!(s.phase(), TcpPhase::BindStarted);
    assert_eq!(s.finish_bind(Attempt::Done(("sock", Ok(())))), Ok(Ok(())));
    assert_eq!(s.phase(), TcpPhase::Bound);
    assert_eq!(s.begin_connect(), Some(("sock", true)));
    assert_eq!(s.phase(), TcpPhase::Connecting);
    assert_eq!(s.finish_connect(Attempt::Done(Ok(7))), Ok(Ok(())));
    assert!(matches!(s, TcpState::Connected(7)));
    assert_eq!(s.begin_bind(), None);
    assert_eq!(s.begin_listen(), Err(ErrorCode::InvalidState));
    assert!(!s.is_listening());
}

#[test]
fn tcp_failed_operations_restore_or_close() {
    let mut s: TcpState<&str, (), u8> = TcpState::Default("sock");
    let taken = s.begin_bind();
    assert_eq!(s.finish_bind(Attempt::Refused(taken, ErrorCode::AccessDenied)), Ok(Err(ErrorCode::AccessDenied)));
    assert!(matches!(s, TcpState::Default("sock")));
    s.begin_bind();
    assert_eq!(s.finish_bind(Attempt::Done(("sock", Err(ErrorCode::AddressInUse)))), Ok(Err(ErrorCode::AddressInUse)));
    assert!(matches!(s, TcpState::Default("sock")));
    let taken = s.begin_connect();
    assert_eq!(taken, Some(("sock", false)));
    assert_eq!(s.finish_connect(Attempt::Refused(taken, ErrorCode::AccessDenied)), Ok(Err(ErrorCode::AccessDenied)));
    assert!(matches!(s, TcpState::Default("sock")));
    s.begin_connect();
    assert_eq!(s.finish_connect(Attempt::Done(Err(ErrorCode::Os(111)))), Ok(Err(ErrorCode::Os(111))));
    assert_eq!(s.phase(), TcpPhase::Closed);
}

#[test]
fn tcp_finishing_in_the_wrong_state_is_corruption() {
    let mut s: TcpState<&str, (), u8> = TcpState::Closed;
    assert_eq!(s.finish_bind(Attempt::Done(("x", Ok(())))), Err(CorruptedState));
    assert_eq!(s.finish_connect(Attempt::Done(Ok(1))), Err(CorruptedState));
    assert_eq!(s.finish_bind(Attempt::Refused(None, ErrorCode::InvalidState)), Ok(Err(ErrorCode::InvalidState)));
    assert_eq!(s.phase(), TcpPhase::Closed);
}

#[test]
fn tcp_listen() {
    let mut s: TcpState<&str, u16, u8> = TcpState::Bound("sock");
    assert_eq!(s.begin_listen(), Ok("sock"));
    assert_eq!(s.finish_listen(Ok(80)), Ok(()));
    assert!(s.is_listening());
    let mut t: TcpState<&str, u16, u8> = TcpState::Default("s");
    assert_eq!(t.begin_listen(), Ok("s"));
    assert_eq!(t.finish_listen(Err(ErrorCode::OutOfMemory)), Err(ErrorCode::OutOfMemory));
    assert_eq!(t.phase(), TcpPhase::Closed);
}

#[test]
fn attempts_need_permission_and_a_socket() {
    assert_eq!(decide_attempt(Some(1), true).ok(), Some(1));
    assert!(matches!(decide_attempt(Some(1), false), Err(Attempt::Refused(Some(1), ErrorCode::AccessDenied))));
    assert!(matches!(decide_attempt::<u8>(None, true), Err(Attempt::Refused(None, ErrorCode::InvalidState))));
}

#[test]
fn udp_bind_checks_in_order() {
    let mut s = UdpSocketState::new(SocketAddressFamily::Ipv6);
    assert_eq!(s.check_bind(false, false), Err(ErrorCode::AccessDenied));
    assert_eq!(s.check_bind(true, false), Err(ErrorCode::InvalidArgument));
    assert_eq!(s.check_bind(true, true), Ok(()));
    assert_eq!(s.check_local_address(), Err(ErrorCode::InvalidState));
    assert_eq!(s.finish_bind(Err(ErrorCode::AddressInUse)), Err(ErrorCode::AddressInUse));
    assert_eq!(s.udp_state, UdpState::Default);
    assert_eq!(s.finish_bind(Ok(())), Ok(()));
    assert_eq!(s.udp_state, UdpState::Bound);
    assert_eq!(s.check_bind(true, true), Err(ErrorCode::InvalidState));
    assert_eq!(s.check_local_address(), Ok(()));
    assert_eq!(s.check_remote_address(), Err(ErrorCode::InvalidState));
    assert_eq!(s.address_family(), SocketAddressFamily::Ipv6);
}

#[test]
fn udp_bind_error_mapping() {
    assert_eq!(map_udp_bind_error(ErrorCode::Os(97), 97), ErrorCode::InvalidArgument);
    assert_eq!(map_udp_bind_error(ErrorCode::Os(98), 97), ErrorCode::Os(98));
    assert_eq!(map_udp_bind_error(ErrorCode::AddressInUse, 97), ErrorCode::AddressInUse);
}

#[test]
fn with_children_parent_and_child() {
    let mut parent = WithChildren::new(5u32);
    assert!(parent.is_parent_handle());
    let mut child = parent.child();
    assert!(!child.is_parent_handle());
    assert_eq!(child.get(), Ok(5));
    assert_eq!(parent.get_mut(), Ok(Some(5)));
    assert_eq!(child.get_mut(), Ok(None));
    assert_eq!(parent.replace(9), Ok(Some(5)));
    assert_eq!(child.get(), Ok(9));
    assert_eq!(child.replace(1), Ok(None));
    assert_eq!(parent.get(), Ok(9));
}

#[test]
fn with_children_clone_is_an_independent_parent() {
    let parent = WithChildren::new(String::from("a"));
    let copy = parent.clone().unwrap();
    assert!(copy.is_parent_handle());
    assert_eq!(copy.get(), Ok(String::from("a")));
    assert_eq!(parent.unwrap_or_clone(), Ok(String::from("a")));
}

#[test]
fn authorities() {
    let mut a = None;
    assert_eq!(set_authority(&mut a, Some("example.com:8080".to_string())), Ok(()));
    assert_eq!(a.as_deref(), Some("example.com:8080"));
    assert_eq!(set_authority(&mut a, Some("example.com:99999".to_string())), Err(()));
    assert_eq!(set_authority(&mut a, Some("example.com:".to_string())), Err(()));
    assert_eq!(set_authority(&mut a, Some("bad host".to_string())), Err(()));
    assert_eq!(a.as_deref(), Some("example.com:8080"));
    assert_eq!(set_authority(&mut a, Some("localhost".to_string())), Ok(()));
    assert_eq!(a.as_deref(), Some("localhost"));
    assert_eq!(set_authority(&mut a, None), Ok(()));
    assert_eq!(a, None);
}

#[test]
fn paths_with_query() {
    let mut p = None;
    assert_eq!(set_path_with_query(&mut p, Some("/a?b=1".to_string())), Ok(()));
    assert_eq!(p.as_deref(), Some("/a?b=1"));
    assert_eq!(set_path_with_query(&mut p, Some("/x#frag".to_string())), Ok(()));
    assert_eq!(p.as_deref(), Some("/x"));
    assert_eq!(set_path_with_query(&mut p, Some("/a b".to_string())), Err(()));
    assert_eq!(p.as_deref(), Some("/x"));
    assert_eq!(set_path_with_query(&mut p, Some(String::new())), Err(()));
    assert_eq!(set_path_with_query(&mut p, Some("#top".to_string())), Ok(()));
    assert_eq!(p.as_deref(), Some("/"));
    assert_eq!(set_path_with_query(&mut p, None), Ok(()));
    assert_eq!(p, None);
}

#[test]
fn guest_lists_for_stream_transfers() {
    assert_eq!(reader_accept_count(64, 8, 4, 4, 10, 3), Ok(3));
    assert_eq!(reader_accept_count(64, 8, 4, 4, 2, 3), Ok(2));
    assert_eq!(reader_accept_count(64, 6, 4, 4, 2, 3), Err(GuestListError::NotAligned));
    assert_eq!(reader_accept_count(64, 8, 4, 4, 15, 1), Err(GuestListError::OutOfBounds));
    assert_eq!(reader_accept_count(64, 68, 4, 4, 0, 1), Err(GuestListError::OutOfBounds));
    assert_eq!(writer_accept_count(64, 8, 4, 4, 15, 2, false), Ok(2));
    assert_eq!(writer_accept_count(64, 8, 4, 4, 15, 100, false), Err(GuestListError::OutOfBounds));
    assert_eq!(writer_accept_count(64, 2, 4, 4, 1, 1, false), Err(GuestListError::NotAligned));
    assert_eq!(writer_accept_count(0, 3, 4, 0, 9, 5, true), Ok(5));
}

#[test]
fn guest_lists_are_checked_for_alignment_then_bounds() {
    assert_eq!(check_guest_list(64, 8, 4, 4, 14), Ok(()));
    assert_eq!(check_guest_list(64, 8, 4, 4, 15), Err(GuestListError::OutOfBounds));
    assert_eq!(check_guest_list(64, 6, 4, 4, 100), Err(GuestListError::NotAligned));
    assert_eq!(check_guest_list(64, 65, 1, 0, 0), Err(GuestListError::OutOfBounds));
}

#[test]
fn flat_items_are_copied_byte_for_byte() {
    let src: Vec<u8> = (0..16).collect();
    let mut dst = vec![0xffu8; 12];
    assert_eq!(flat_copy(&src, 4, &mut dst, 2, 2, 2, 3), Ok(()));
    assert_eq!(dst, vec![0xff, 0xff, 4, 5, 6, 7, 8, 9, 0xff, 0xff, 0xff, 0xff]);

    let before = dst.clone();
    assert_eq!(
        flat_copy(&src, 3, &mut dst, 2, 2, 2, 3),
        Err(CopyError::Write(GuestListError::NotAligned))
    );
    assert_eq!(
        flat_copy(&src, 4, &mut dst, 1, 2, 2, 3),
        Err(CopyError::Read(GuestListError::NotAligned))
    );
    assert_eq!(
        flat_copy(&src, 12, &mut dst, 2, 2, 2, 3),
        Err(CopyError::Write(GuestListError::OutOfBounds))
    );
    assert_eq!(
        flat_copy(&src, 4, &mut dst, 8, 2, 2, 3),
        Err(CopyError::Read(GuestListError::OutOfBounds))
    );
    assert_eq!(dst, before);
    assert_eq!(flat_copy(&src, 99, &mut dst, 99, 2, 2, 0), Ok(()));
    assert_eq!(dst, before);
}
