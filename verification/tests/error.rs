use glean_core::error::{Error, ErrorKind, EXTERN_ERROR_CODE};

#[test]
fn every_kind_converts_totally_with_its_message() {
    let cases = [
        (ErrorKind::Lifetime(3), "Lifetime conversion from 3 failed"),
        (ErrorKind::Handle, "Invalid handle"),
        (ErrorKind::IoError, "An I/O error occurred."),
        (ErrorKind::Rkv, "An Rkv error occurred."),
        (ErrorKind::Json, "A JSON error occurred."),
        (ErrorKind::TimeUnit(7), "TimeUnit conversion from 7 failed"),
        (ErrorKind::TimeUnit(-13), "TimeUnit conversion from -13 failed"),
        (ErrorKind::TimeUnit(1048576), "TimeUnit conversion from 1048576 failed"),
        (ErrorKind::TimeUnit(i32::MIN), "TimeUnit conversion from -2147483648 failed"),
    ];
    for (kind, message) in cases {
        let error = Error::from_kind(kind);
        assert_eq!(*error.kind(), kind);
        assert_eq!(error.message(), message);
    }
}

#[test]
fn boundary_erasure_uses_the_catch_all_code() {
    assert_eq!(EXTERN_ERROR_CODE, 42);
    let error = Error::from_kind(ErrorKind::Handle);
    let (code, message) = error.extern_parts();
    assert_eq!(code, 42);
    assert_eq!(message, "Invalid handle");
}
