use transport::addr::{parse_v4, Address};

#[test]
fn parse_loopback_endpoint() {
    let a = parse_v4(b"127.0.0.1:8080").unwrap();
    assert_eq!(a, Address::v4(127, 0, 0, 1, 8080));
}

#[test]
fn parse_extreme_values() {
    assert_eq!(
        parse_v4(b"255.255.255.255:65535"),
        Some(Address::v4(255, 255, 255, 255, 65535))
    );
    assert_eq!(parse_v4(b"0.0.0.0:0"), Some(Address::v4(0, 0, 0, 0, 0)));
}

#[test]
fn parse_rejects_out_of_range_octet() {
    assert_eq!(parse_v4(b"256.0.0.1:80"), None);
    assert_eq!(parse_v4(b"1.2.3.999:80"), None);
}

#[test]
fn parse_rejects_out_of_range_port() {
    assert_eq!(parse_v4(b"1.2.3.4:65536"), None);
    assert_eq!(parse_v4(b"1.2.3.4:111111"), None);
}

#[test]
fn parse_rejects_leading_zeroes() {
    assert_eq!(parse_v4(b"01.2.3.4:80"), None);
    assert_eq!(parse_v4(b"1.02.3.4:80"), None);
    assert_eq!(parse_v4(b"1.2.3.4:080"), None);
    assert_eq!(parse_v4(b"0.0.0.0:00"), None);
}

#[test]
fn parse_rejects_malformed_text() {
    assert_eq!(parse_v4(b""), None);
    assert_eq!(parse_v4(b"1.2.3:80"), None);
    assert_eq!(parse_v4(b"1.2.3.4"), None);
    assert_eq!(parse_v4(b"1.2.3.4:"), None);
    assert_eq!(parse_v4(b"1.2.3.4:80x"), None);
    assert_eq!(parse_v4(b"1.2.3.4.5:80"), None);
    assert_eq!(parse_v4(b"a.b.c.d:80"), None);
    assert_eq!(parse_v4(b" 1.2.3.4:80"), None);
    assert_eq!(parse_v4(b"1..3.4:80"), None);
}

#[test]
fn render_then_parse_round_trip() {
    let a = Address::v4(192, 168, 0, 10, 443);
    let text = a.render_v4().unwrap();
    assert_eq!(text, b"192.168.0.10:443".to_vec());
    assert_eq!(parse_v4(&text), Some(a));
}

#[test]
fn render_of_single_digit_octets() {
    let a = Address::v4(1, 2, 3, 4, 5);
    assert_eq!(a.render_v4().unwrap(), b"1.2.3.4:5".to_vec());
}

#[test]
fn v6_endpoint_has_no_v4_text() {
    let a = Address::v6(0, 0, 0, 0, 0, 0, 0, 1, 80);
    assert!(a.render_v4().is_none());
    assert_eq!(a.port(), 80);
}
