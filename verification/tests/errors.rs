use transport::errors::{AcceptError, BindError, ConnectError, ErrorKind, ReadError, WriteError};

#[test]
fn bind_error_classifies_addr_in_use() {
    assert!(BindError::new(ErrorKind::AddrInUse, Some(98)).is_addr_in_use());
    assert!(!BindError::new(ErrorKind::PermissionDenied, None).is_addr_in_use());
}

#[test]
fn connect_error_classifies_refused() {
    assert!(ConnectError::new(ErrorKind::ConnectionRefused, Some(111)).is_refused());
    assert!(!ConnectError::new(ErrorKind::TimedOut, None).is_refused());
}

#[test]
fn read_error_classifies_unexpected_eof() {
    let e = ReadError::unexpected_eof();
    assert!(e.is_unexpected_eof());
    assert_eq!(e.os_code, None);
    assert!(!ReadError::new(ErrorKind::ConnectionReset, Some(104)).is_unexpected_eof());
}

#[test]
fn write_error_classifies_write_zero() {
    assert!(WriteError::new(ErrorKind::WriteZero, None).is_write_zero());
    assert!(!WriteError::new(ErrorKind::Other, None).is_write_zero());
}

#[test]
fn kinds_describe_themselves() {
    assert_eq!(ErrorKind::AddrInUse.describe(), "address in use");
    assert_eq!(ErrorKind::ConnectionRefused.describe(), "connection refused");
    assert_eq!(ErrorKind::UnexpectedEof.describe(), "unexpected end of stream");
    assert_eq!(ErrorKind::WriteZero.describe(), "transport accepted no bytes");
}

#[test]
fn accept_error_carries_kind_and_code() {
    let e = AcceptError::new(ErrorKind::Other, Some(24));
    assert_eq!(e.kind, ErrorKind::Other);
    assert_eq!(e.os_code, Some(24));
}
