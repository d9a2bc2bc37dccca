use fanout_relay::ident::ConnectionId;

#[test]
fn fresh_id_is_a_version_4_uuid() {
    let id = ConnectionId::fresh();
    assert!(id.is_random());
    assert_eq!((id.bits() >> 76) & 0xf, 4);
    assert_eq!((id.bits() >> 62) & 0x3, 2);
}

#[test]
fn fresh_ids_differ() {
    let a = ConnectionId::fresh();
    let b = ConnectionId::fresh();
    assert_ne!(a, b);
}

#[test]
fn from_bits_keeps_the_bits() {
    let id = ConnectionId::from_bits(7);
    assert_eq!(id.bits(), 7);
    assert!(!id.is_random());
}
