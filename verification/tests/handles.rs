use wasip3::handles::{
    ErrorContext, ErrorContextAny, FromValError, FutureAny, HostFuture, HostStream, StreamAny, Val,
    ValKind,
};

#[test]
fn future_handle_roundtrips_through_a_value() {
    let live = vec![3, 7];
    let fut = HostFuture::<u32>::from_val(&Val::Future(FutureAny(7)), &live).unwrap();
    assert_eq!(fut.into_val(), Val::Future(FutureAny(7)));
}

#[test]
fn stream_handle_roundtrips_through_a_value() {
    let live = vec![5];
    let s = HostStream::<u8>::from_val(&Val::Stream(StreamAny(5)), &live).unwrap();
    assert_eq!(s.into_val(), Val::Stream(StreamAny(5)));
}

#[test]
fn handles_of_another_type_are_refused() {
    let live = vec![1];
    assert_eq!(
        HostFuture::<u32>::from_val(&Val::Stream(StreamAny(1)), &live).err(),
        Some(FromValError::Expected { expected: ValKind::Future, got: ValKind::Stream })
    );
    assert_eq!(
        HostStream::<u32>::from_val(&Val::U32(1), &live).err(),
        Some(FromValError::Expected { expected: ValKind::Stream, got: ValKind::U32 })
    );
    assert_eq!(
        ErrorContext::from_val(&Val::Bool(true)).err(),
        Some(FromValError::Expected { expected: ValKind::ErrorContext, got: ValKind::Bool })
    );
}

#[test]
fn handles_missing_from_the_table_are_refused() {
    assert_eq!(
        HostFuture::<u32>::from_val(&Val::Future(FutureAny(2)), &vec![1, 3]).err(),
        Some(FromValError::NotPresent(2))
    );
    assert_eq!(
        HostStream::<u32>::from_val(&Val::Stream(StreamAny(0)), &vec![]).err(),
        Some(FromValError::NotPresent(0))
    );
}

#[test]
fn error_context_roundtrips_through_a_value() {
    let e = ErrorContext::from_val(&Val::ErrorContext(ErrorContextAny(11))).unwrap();
    assert_eq!(e.into_val(), Val::ErrorContext(ErrorContextAny(11)));
}

#[test]
fn value_kinds_and_names() {
    assert_eq!(Val::Char('x').kind(), ValKind::Char);
    assert_eq!(Val::S32(-1).kind(), ValKind::S32);
    assert_eq!(Val::U64(1).kind(), ValKind::U64);
    assert_eq!(ValKind::Future.desc(), "future");
    assert_eq!(ValKind::Stream.desc(), "stream");
    assert_eq!(ValKind::ErrorContext.desc(), "error-context");
    assert_eq!(ValKind::Bool.desc(), "bool");
    assert_eq!(ValKind::S32.desc(), "s32");
    assert_eq!(ValKind::U32.desc(), "u32");
    assert_eq!(ValKind::U64.desc(), "u64");
    assert_eq!(ValKind::Char.desc(), "char");
}
