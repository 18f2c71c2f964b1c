use transport::errors::ErrorKind;
use transport::exact::{ReadExact, WriteAll};

#[test]
fn read_exact_fills_in_steps() {
    let mut m = ReadExact::new(5);
    assert!(!m.is_done());
    assert_eq!(m.remaining(), 5);
    assert!(!m.on_bytes(3));
    assert_eq!(m.remaining(), 2);
    assert!(m.on_bytes(2));
    assert!(m.is_done());
    assert_eq!(m.on_close(), None);
}

#[test]
fn read_exact_close_midway_fails() {
    let mut m = ReadExact::new(4);
    m.on_bytes(1);
    assert_eq!(m.on_close(), Some(ErrorKind::UnexpectedEof));
}

#[test]
fn read_exact_close_before_any_byte_fails() {
    let m = ReadExact::new(1);
    assert_eq!(m.on_close(), Some(ErrorKind::UnexpectedEof));
}

#[test]
fn read_exact_of_zero_bytes_is_complete() {
    let m = ReadExact::new(0);
    assert!(m.is_done());
    assert_eq!(m.on_close(), None);
}

#[test]
fn write_all_accounts_for_partial_writes() {
    let mut m = WriteAll::new(6);
    assert!(!m.on_accepted(4));
    assert_eq!(m.remaining(), 2);
    assert!(m.on_accepted(2));
    assert!(m.is_done());
    assert_eq!(m.on_refusal(), None);
}

#[test]
fn write_all_refusal_midway_fails() {
    let mut m = WriteAll::new(3);
    m.on_accepted(1);
    assert_eq!(m.on_refusal(), Some(ErrorKind::WriteZero));
}

#[test]
fn write_all_of_zero_bytes_is_complete() {
    let m = WriteAll::new(0);
    assert!(m.is_done());
    assert_eq!(m.on_refusal(), None);
}
