use transport::addr::Address;
use transport::stream::StreamModel;
use transport::wire::{ReadOutcome, Wire};

#[test]
fn split_halves_carry_their_directions() {
    let mut peer_sent = Wire::new();
    peer_sent.send(b"request");
    let local = Address::v4(127, 0, 0, 1, 4000);
    let peer = Address::v4(127, 0, 0, 1, 4001);
    let s = StreamModel::connected(peer_sent, local, peer);
    assert_eq!(s.local_addr(), local);
    assert_eq!(s.peer_addr(), peer);
    let (mut r, mut w) = s.into_split();
    // the stream handle is consumed above: only the two halves remain
    match r.read_exact(7) {
        ReadOutcome::Filled(data) => assert_eq!(data, b"request".to_vec()),
        _ => panic!("seven bytes are in flight"),
    }
    w.write_all(b"reply");
    w.close();
}

#[test]
fn split_read_half_sees_peer_close() {
    let mut peer_sent = Wire::new();
    peer_sent.send(b"ab");
    peer_sent.close();
    let s = StreamModel::connected(peer_sent, Address::v4(10, 0, 0, 1, 1), Address::v4(10, 0, 0, 2, 2));
    let (mut r, _w) = s.into_split();
    assert!(matches!(r.read_exact(3), ReadOutcome::Eof));
    match r.read_exact(2) {
        ReadOutcome::Filled(data) => assert_eq!(data, b"ab".to_vec()),
        _ => panic!("the two bytes sent before the close stay readable"),
    }
}
