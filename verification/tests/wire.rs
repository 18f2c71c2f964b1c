use transport::wire::{ReadOutcome, Wire};

#[test]
fn round_trip_returns_identical_bytes() {
    let mut w = Wire::new();
    w.send(b"hello transport");
    match w.try_read_exact(15) {
        ReadOutcome::Filled(data) => assert_eq!(data, b"hello transport".to_vec()),
        _ => panic!("enough bytes are in flight; the read must fill"),
    }
}

#[test]
fn order_is_preserved_across_sends() {
    let mut w = Wire::new();
    w.send(b"abc");
    w.send(b"def");
    match w.try_read_exact(2) {
        ReadOutcome::Filled(data) => assert_eq!(data, b"ab".to_vec()),
        _ => panic!("two bytes are in flight"),
    }
    match w.try_read_exact(4) {
        ReadOutcome::Filled(data) => assert_eq!(data, b"cdef".to_vec()),
        _ => panic!("four bytes are in flight"),
    }
}

#[test]
fn zero_length_read_fills_immediately() {
    let mut w = Wire::new();
    match w.try_read_exact(0) {
        ReadOutcome::Filled(data) => assert!(data.is_empty()),
        _ => panic!("a read of nothing always fills"),
    }
}

#[test]
fn short_close_is_eof_never_partial() {
    let mut w = Wire::new();
    w.send(b"abc");
    w.close();
    assert!(matches!(w.try_read_exact(5), ReadOutcome::Eof));
}

#[test]
fn short_open_wire_suspends_then_fills() {
    let mut w = Wire::new();
    w.send(b"ab");
    assert!(matches!(w.try_read_exact(5), ReadOutcome::Pending));
    w.send(b"cde");
    match w.try_read_exact(5) {
        ReadOutcome::Filled(data) => assert_eq!(data, b"abcde".to_vec()),
        _ => panic!("five bytes are in flight"),
    }
}

#[test]
fn close_keeps_bytes_already_in_flight() {
    let mut w = Wire::new();
    w.send(b"xy");
    w.close();
    match w.try_read_exact(2) {
        ReadOutcome::Filled(data) => assert_eq!(data, b"xy".to_vec()),
        _ => panic!("the bytes sent before the close stay readable"),
    }
}
