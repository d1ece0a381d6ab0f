use wasip3::fields::{
    bytes_eq, copy_bytes, default_forbidden_header_names, fields_append, fields_delete,
    fields_entries, fields_from_list, fields_get, fields_get_and_delete, fields_has, fields_set,
    get_content_length, is_default_forbidden, parse_header_value, parse_u64, u64_to_decimal,
    set_host_header, HeaderError, InvalidContentLength, InvalidHostHeader, WasiHttpCtx, WasiHttpImpl, WasiHttpView,
    MAX_FIELD_NAMES,
};

fn view() -> WasiHttpCtx<()> {
    WasiHttpCtx { client: () }
}

fn entries(list: &[(&str, &str)]) -> Vec<(Vec<u8>, Vec<u8>)> {
    list.iter().map(|(n, v)| (n.as_bytes().to_vec(), v.as_bytes().to_vec())).collect()
}

#[test]
fn from_list_keeps_values_in_order_and_lowercases_names() {
    let fields = fields_from_list(&view(), &entries(&[("X-A", "1"), ("x-b", "2"), ("x-a", "3")])).unwrap().unwrap();
    assert_eq!(fields_get(&fields, b"x-a"), vec![b"1".to_vec(), b"3".to_vec()]);
    assert_eq!(fields_get(&fields, b"X-B"), vec![b"2".to_vec()]);
    assert!(fields_has(&fields, b"x-b"));
    assert!(!fields_has(&fields, b"x-c"));
}

#[test]
fn from_list_refuses_invalid_and_forbidden_entries() {
    assert_eq!(
        fields_from_list(&view(), &entries(&[("bad name", "1")])).unwrap().err(),
        Some(HeaderError::InvalidSyntax)
    );
    assert_eq!(
        fields_from_list(&view(), &entries(&[("x-ok", "1"), ("Connection", "close")])).unwrap().err(),
        Some(HeaderError::Forbidden)
    );
    assert_eq!(
        fields_from_list(&view(), &entries(&[("x-ok", "a\nb")])).unwrap().err(),
        Some(HeaderError::InvalidSyntax)
    );
    assert_eq!(
        fields_from_list(&view(), &entries(&[("content-length", "abc")])).unwrap().err(),
        Some(HeaderError::InvalidSyntax)
    );
}

#[test]
fn content_length_values_are_stored_as_plain_decimals() {
    let fields = fields_from_list(&view(), &entries(&[("Content-Length", "+0042")])).unwrap().unwrap();
    assert_eq!(fields_get(&fields, b"content-length"), vec![b"42".to_vec()]);
    assert_eq!(get_content_length(&fields), Ok(Some(42)));
}

#[test]
fn content_length_absent_or_invalid() {
    let fields = fields_from_list(&view(), &entries(&[("x-a", "1")])).unwrap().unwrap();
    assert_eq!(get_content_length(&fields), Ok(None));
    let mut map = http::HeaderMap::new();
    map.insert(http::header::CONTENT_LENGTH, http::HeaderValue::from_static("12x"));
    assert_eq!(get_content_length(&map), Err(InvalidContentLength));
}

#[test]
fn set_then_get_gives_the_values_back() {
    let mut fields = fields_from_list(&view(), &entries(&[("x-a", "1"), ("x-a", "2")])).unwrap().unwrap();
    let values = vec![b"3".to_vec(), b"4".to_vec()];
    assert_eq!(fields_set(&view(), &mut fields, true, b"X-A", &values), Ok(Ok(())));
    assert_eq!(fields_get(&fields, b"x-a"), values);
    assert_eq!(fields_set(&view(), &mut fields, true, b"x-a", &Vec::new()), Ok(Ok(())));
    assert!(!fields_has(&fields, b"x-a"));
}

#[test]
fn set_refuses_without_changing_anything() {
    let mut fields = fields_from_list(&view(), &entries(&[("x-a", "1")])).unwrap().unwrap();
    let values = vec![b"2".to_vec()];
    assert_eq!(fields_set(&view(), &mut fields, false, b"x-a", &values), Ok(Err(HeaderError::Immutable)));
    assert_eq!(fields_set(&view(), &mut fields, true, b"host", &values), Ok(Err(HeaderError::Forbidden)));
    assert_eq!(
        fields_set(&view(), &mut fields, true, b"x-a", &vec![b"ok".to_vec(), b"\x01".to_vec()]),
        Ok(Err(HeaderError::InvalidSyntax)));
    assert_eq!(fields_get(&fields, b"x-a"), vec![b"1".to_vec()]);
}

#[test]
fn append_then_get_adds_after_the_earlier_values() {
    let mut fields = fields_from_list(&view(), &entries(&[("x-a", "1")])).unwrap().unwrap();
    assert_eq!(fields_append(&view(), &mut fields, true, b"x-a", b"2"), Ok(Ok(())));
    assert_eq!(fields_get(&fields, b"x-a"), vec![b"1".to_vec(), b"2".to_vec()]);
    assert_eq!(fields_append(&view(), &mut fields, false, b"x-a", b"3"), Ok(Err(HeaderError::Immutable)));
    assert_eq!(fields_append(&view(), &mut fields, true, b"te", b"3"), Ok(Err(HeaderError::Forbidden)));
    assert_eq!(fields_get(&fields, b"x-a"), vec![b"1".to_vec(), b"2".to_vec()]);
}

#[test]
fn delete_and_get_and_delete() {
    let mut fields = fields_from_list(&view(), &entries(&[("x-a", "1"), ("x-a", "2"), ("x-b", "3")])).unwrap().unwrap();
    assert_eq!(
        fields_get_and_delete(&view(), &mut fields, true, b"x-a"),
        Ok(vec![b"1".to_vec(), b"2".to_vec()])
    );
    assert!(!fields_has(&fields, b"x-a"));
    assert_eq!(fields_get_and_delete(&view(), &mut fields, true, b"x-z"), Ok(vec![]));
    assert_eq!(fields_delete(&view(), &mut fields, false, b"x-b"), Err(HeaderError::Immutable));
    assert_eq!(fields_delete(&view(), &mut fields, true, b"x b"), Err(HeaderError::InvalidSyntax));
    assert_eq!(fields_delete(&view(), &mut fields, true, b"x-b"), Ok(()));
    assert!(fields_entries(&fields).is_empty());
}

#[test]
fn entries_list_every_pair() {
    let fields = fields_from_list(&view(), &entries(&[("x-a", "1"), ("x-b", "2"), ("x-a", "3")])).unwrap().unwrap();
    let mut all = fields_entries(&fields);
    all.sort();
    assert_eq!(
        all,
        vec![
            (b"x-a".to_vec(), b"1".to_vec()),
            (b"x-a".to_vec(), b"3".to_vec()),
            (b"x-b".to_vec(), b"2".to_vec()),
        ]
    );
}

#[test]
fn get_of_an_invalid_name_is_empty() {
    let fields = fields_from_list(&view(), &entries(&[("x-a", "1")])).unwrap().unwrap();
    assert!(fields_get(&fields, b"").is_empty());
    assert!(!fields_has(&fields, b"a b"));
}

#[test]
fn default_forbidden_headers() {
    let names = default_forbidden_header_names();
    assert_eq!(names.len(), 10);
    for name in [
        "connection",
        "keep-alive",
        "proxy-authenticate",
        "proxy-authorization",
        "proxy-connection",
        "te",
        "transfer-encoding",
        "upgrade",
        "host",
        "http2-settings",
    ] {
        assert!(is_default_forbidden(name.as_bytes()), "{name}");
        assert!(view().is_forbidden_header(name.as_bytes()));
    }
    assert!(!is_default_forbidden(b"x-a"));
    assert!(!is_default_forbidden(b"Host"));
    assert!(WasiHttpImpl(view()).is_forbidden_header(b"te"));
}

#[test]
fn header_values_are_checked() {
    assert_eq!(parse_header_value(b"x-a", b"a b\tc"), Ok(b"a b\tc".to_vec()));
    assert_eq!(parse_header_value(b"x-a", b"a\x7f"), Err(HeaderError::InvalidSyntax));
    assert_eq!(parse_header_value(b"content-length", b"007"), Ok(b"7".to_vec()));
    assert_eq!(parse_header_value(b"content-length", b"-1"), Err(HeaderError::InvalidSyntax));
}

#[test]
fn decimal_parsing_and_printing() {
    assert_eq!(parse_u64(b"0"), Some(0));
    assert_eq!(parse_u64(b"+18446744073709551615"), Some(u64::MAX));
    assert_eq!(parse_u64(b"18446744073709551616"), None);
    assert_eq!(parse_u64(b""), None);
    assert_eq!(parse_u64(b"+"), None);
    assert_eq!(parse_u64(b"1 "), None);
    assert_eq!(u64_to_decimal(0), b"0".to_vec());
    assert_eq!(u64_to_decimal(1234567890), b"1234567890".to_vec());
    assert_eq!(parse_u64(&u64_to_decimal(u64::MAX)), Some(u64::MAX));
}

#[test]
fn byte_helpers() {
    assert_eq!(copy_bytes(b"abc"), b"abc".to_vec());
    assert!(bytes_eq(b"abc", b"abc"));
    assert!(!bytes_eq(b"abc", b"abd"));
    assert!(!bytes_eq(b"abc", b"ab"));
}

#[test]
fn host_header_follows_the_authority() {
    let mut fields = fields_from_list(&WasiHttpCtx { client: () }, &entries(&[("x-a", "1")])).unwrap().unwrap();
    fields.append(http::header::HOST, http::HeaderValue::from_static("old"));
    fields.append(http::header::HOST, http::HeaderValue::from_static("older"));
    assert_eq!(set_host_header(&mut fields, Some("example.com:80")), Ok(Ok(())));
    assert_eq!(fields_get(&fields, b"host"), vec![b"example.com:80".to_vec()]);
    assert_eq!(set_host_header(&mut fields, None), Ok(Ok(())));
    assert_eq!(fields_get(&fields, b"host"), vec![Vec::<u8>::new()]);
    assert_eq!(set_host_header(&mut fields, Some("bad\nhost")), Ok(Err(InvalidHostHeader)));
    assert_eq!(fields_get(&fields, b"host"), vec![Vec::<u8>::new()]);
    assert_eq!(fields_get(&fields, b"x-a"), vec![b"1".to_vec()]);
}

#[test]
fn many_distinct_names_are_accepted() {
    let many_names: Vec<(Vec<u8>, Vec<u8>)> = (0..MAX_FIELD_NAMES + 500)
        .map(|i| (format!("x-{i}").into_bytes(), b"v".to_vec()))
        .collect();
    let mut fields = fields_from_list(&view(), &many_names).unwrap().unwrap();
    assert_eq!(fields.keys_len(), MAX_FIELD_NAMES + 500);
    assert_eq!(fields_append(&view(), &mut fields, true, b"x-other", b"1"), Ok(Ok(())));
    assert_eq!(fields_get(&fields, b"x-other"), vec![b"1".to_vec()]);
    assert_eq!(
        fields_set(&view(), &mut fields, true, b"x-new", &vec![b"1".to_vec(), b"2".to_vec()]),
        Ok(Ok(()))
    );
    assert_eq!(fields_get(&fields, b"x-new"), vec![b"1".to_vec(), b"2".to_vec()]);
    assert_eq!(set_host_header(&mut fields, Some("a.example")), Ok(Ok(())));
    let mut bad = many_names.clone();
    bad[10].0 = b"bad name".to_vec();
    assert_eq!(fields_from_list(&view(), &bad).unwrap().err(), Some(HeaderError::InvalidSyntax));
    let same_name: Vec<(Vec<u8>, Vec<u8>)> =
        (0..5000).map(|i| (b"x-a".to_vec(), format!("{i}").into_bytes())).collect();
    let fields = fields_from_list(&view(), &same_name).unwrap().unwrap();
    assert_eq!(fields_get(&fields, b"x-a").len(), 5000);
}
