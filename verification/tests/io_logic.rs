use wasip3::filesystem::{
    check_listable, check_writable, directory_entry, read_start, read_step, read_via_stream_outcome,
    record_write, DescriptorType, DirPerms, ErrorCode as FsError, FilePerms, FileRead, ReadOutcome,
    ReadStart, ReadStep, WriteProgress,
};
use wasip3::ip_name_lookup::{
    canonical_address, lookup_answer, parse_host, plan_resolution, resolve_plan, ErrorCode,
    IpAddress, ParsedHost, Resolution,
};

#[test]
fn parse_host_reads_domains_and_addresses() {
    assert!(matches!(parse_host("example.com"), Some(ParsedHost::Domain(d)) if d == "example.com"));
    assert!(matches!(parse_host("EXAMPLE.com"), Some(ParsedHost::Domain(d)) if d == "example.com"));
    assert!(matches!(parse_host("127.0.0.1"), Some(ParsedHost::Ipv4([127, 0, 0, 1]))));
    assert!(matches!(parse_host("[::1]"), Some(ParsedHost::Ipv6([0, 0, 0, 0, 0, 0, 0, 1]))));
    assert!(matches!(parse_host("::1"), Some(ParsedHost::Ipv6([0, 0, 0, 0, 0, 0, 0, 1]))));
}

#[test]
fn parse_host_converts_unicode_domains_to_punycode() {
    assert!(matches!(parse_host("bücher.example"), Some(ParsedHost::Domain(d)) if d == "xn--bcher-kva.example"));
}

#[test]
fn parse_host_refuses_invalid_names() {
    assert!(parse_host("").is_none());
    assert!(parse_host("exa mple.com").is_none());
    assert!(parse_host("[::1").is_none());
}

#[test]
fn resolve_plan_answers_addresses_directly() {
    match resolve_plan("10.0.0.2", true) {
        Ok(Resolution::Addresses(v)) => {
            assert_eq!(v.len(), 1);
            assert!(matches!(v[0], IpAddress::Ipv4([10, 0, 0, 2])));
        }
        other => panic!("unexpected {other:?}"),
    }
    match resolve_plan("fe80::2", true) {
        Ok(Resolution::Addresses(v)) => {
            assert!(matches!(v[0], IpAddress::Ipv6([0xfe80, 0, 0, 0, 0, 0, 0, 2])));
        }
        other => panic!("unexpected {other:?}"),
    }
}

#[test]
fn resolve_plan_looks_up_domains() {
    assert!(matches!(resolve_plan("localhost", true), Ok(Resolution::Lookup(d)) if d == "localhost"));
}

#[test]
fn resolve_plan_refuses_invalid_names_before_checking_permission() {
    assert!(matches!(resolve_plan("a b", false), Err(ErrorCode::InvalidArgument)));
    assert!(matches!(resolve_plan("a b", true), Err(ErrorCode::InvalidArgument)));
}

#[test]
fn resolve_plan_refuses_when_lookups_are_not_allowed() {
    assert!(matches!(resolve_plan("localhost", false), Err(ErrorCode::PermanentResolverFailure)));
    assert!(matches!(
        plan_resolution(ParsedHost::Ipv4([1, 2, 3, 4]), false),
        Err(ErrorCode::PermanentResolverFailure)
    ));
}

#[test]
fn canonical_addresses_unmap_ipv4() {
    assert!(matches!(
        canonical_address(IpAddress::Ipv6([0, 0, 0, 0, 0, 0xffff, 0xc0a8, 0x0102])),
        IpAddress::Ipv4([192, 168, 1, 2])
    ));
    assert!(matches!(
        canonical_address(IpAddress::Ipv6([0, 0, 0, 0, 0, 0, 0xc0a8, 0x0102])),
        IpAddress::Ipv6([0, 0, 0, 0, 0, 0, 0xc0a8, 0x0102])
    ));
    assert!(matches!(canonical_address(IpAddress::Ipv4([8, 8, 8, 8])), IpAddress::Ipv4([8, 8, 8, 8])));
}

#[test]
fn lookup_answers() {
    assert!(matches!(lookup_answer(None), Err(ErrorCode::NameUnresolvable)));
    let found = vec![
        IpAddress::Ipv6([0, 0, 0, 0, 0, 0xffff, 0x7f00, 0x0001]),
        IpAddress::Ipv6([0, 0, 0, 0, 0, 0, 0, 1]),
    ];
    match lookup_answer(Some(found)) {
        Ok(v) => {
            assert_eq!(v.len(), 2);
            assert!(matches!(v[0], IpAddress::Ipv4([127, 0, 0, 1])));
            assert!(matches!(v[1], IpAddress::Ipv6([0, 0, 0, 0, 0, 0, 0, 1])));
        }
        Err(e) => panic!("unexpected {e:?}"),
    }
}

#[test]
fn write_checks_need_a_writable_file() {
    assert_eq!(check_writable(Ok(FilePerms { read: false, write: true })), Ok(()));
    assert_eq!(check_writable(Ok(FilePerms { read: true, write: false })), Err(FsError::BadDescriptor));
    assert_eq!(check_writable(Err(FsError::IsDirectory)), Err(FsError::IsDirectory));
}

#[test]
fn listing_checks_need_a_readable_directory() {
    assert_eq!(check_listable(Ok(DirPerms { read: true, mutate: false })), Ok(()));
    assert_eq!(check_listable(Ok(DirPerms { read: false, mutate: true })), Err(FsError::NotPermitted));
    assert_eq!(check_listable(Err(FsError::NotDirectory)), Err(FsError::NotDirectory));
}

#[test]
fn read_steps() {
    assert_eq!(read_step(10, ReadOutcome::Read(0)), ReadStep::End);
    assert_eq!(read_step(10, ReadOutcome::Read(5)), ReadStep::Chunk { len: 5, next_offset: 15 });
    assert_eq!(read_step(u64::MAX - 1, ReadOutcome::Read(2)), ReadStep::Fail(FsError::Overflow));
    assert_eq!(read_step(0, ReadOutcome::Failed(FsError::Io)), ReadStep::Fail(FsError::Io));
}

#[test]
fn write_progress() {
    let p = WriteProgress { written: 0, offset: 100 };
    let p = record_write(p, 10, 4).unwrap();
    assert_eq!(p, WriteProgress { written: 4, offset: 104 });
    let p = record_write(p, 10, 6).unwrap();
    assert_eq!(p, WriteProgress { written: 10, offset: 110 });
    assert_eq!(
        record_write(WriteProgress { written: 0, offset: u64::MAX }, 1, 1),
        Err(FsError::Overflow)
    );
}

#[test]
fn directory_entries_need_utf8_names() {
    let e = directory_entry(DescriptorType::RegularFile, b"notes.txt".to_vec()).unwrap();
    assert_eq!(e.type_, DescriptorType::RegularFile);
    assert_eq!(e.name, "notes.txt");
    assert!(matches!(
        directory_entry(DescriptorType::Directory, vec![0x66, 0xff]),
        Err(FsError::IllegalByteSequence)
    ));
}

#[test]
fn reading_through_a_descriptor() {
    assert_eq!(read_start(Ok(())), ReadStart::ReadFile);
    assert_eq!(read_start(Err(FsError::BadDescriptor)), ReadStart::CloseWith(FsError::BadDescriptor));
    assert_eq!(
        read_via_stream_outcome(Err(FsError::IsDirectory), 0, &vec![FileRead::Bytes(b"x".to_vec())]),
        (vec![], Some(Err(FsError::IsDirectory)))
    );
    let reads = vec![
        FileRead::Bytes(b"ab".to_vec()),
        FileRead::Bytes(b"c".to_vec()),
        FileRead::Bytes(vec![]),
        FileRead::Bytes(b"never".to_vec()),
    ];
    assert_eq!(read_via_stream_outcome(Ok(()), 5, &reads), (b"abc".to_vec(), Some(Ok(()))));
    let reads = vec![FileRead::Bytes(b"ab".to_vec()), FileRead::Failed(FsError::Io)];
    assert_eq!(read_via_stream_outcome(Ok(()), 0, &reads), (b"ab".to_vec(), Some(Err(FsError::Io))));
    let reads = vec![FileRead::Bytes(b"ab".to_vec())];
    assert_eq!(
        read_via_stream_outcome(Ok(()), u64::MAX - 1, &reads),
        (vec![], Some(Err(FsError::Overflow)))
    );
    assert_eq!(read_via_stream_outcome(Ok(()), 0, &reads), (b"ab".to_vec(), None));
}
