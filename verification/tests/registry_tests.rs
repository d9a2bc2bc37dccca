use fanout_relay::ident::ConnectionId;
use fanout_relay::registry::SessionRegistry;
use fanout_relay::sink::{ConnectionHandle, ConnectionKind, SendOutcome};

fn handle() -> ConnectionHandle {
    ConnectionHandle::open(ConnectionKind::Interactive).0
}

fn sorted_bits(ids: Vec<ConnectionId>) -> Vec<u128> {
    let mut bits: Vec<u128> = ids.iter().map(|id| id.bits()).collect();
    bits.sort();
    bits
}

#[test]
fn new_registry_is_empty() {
    let registry = SessionRegistry::new();
    assert_eq!(registry.len(), 0);
    assert!(registry.is_empty());
    assert!(registry.snapshot().is_empty());
}

#[test]
fn register_inserts_and_snapshot_lists_each_id_once() {
    let mut registry = SessionRegistry::new();
    assert!(registry.register(ConnectionId::from_bits(3), handle()).is_none());
    assert!(registry.register(ConnectionId::from_bits(1), handle()).is_none());
    assert!(registry.register(ConnectionId::from_bits(2), handle()).is_none());
    assert_eq!(registry.len(), 3);
    assert!(!registry.is_empty());
    assert!(registry.contains(ConnectionId::from_bits(2)));
    assert!(!registry.contains(ConnectionId::from_bits(4)));
    assert_eq!(sorted_bits(registry.snapshot()), vec![1, 2, 3]);
}

#[test]
fn register_of_a_used_id_overwrites() {
    let mut registry = SessionRegistry::new();
    let (first, mut first_rx) = ConnectionHandle::open(ConnectionKind::Interactive);
    let (second, mut second_rx) = ConnectionHandle::open(ConnectionKind::Interactive);
    let id = ConnectionId::from_bits(9);
    assert!(registry.register(id, first).is_none());
    let displaced = registry.register(id, second);
    assert!(displaced.is_some());
    assert_eq!(registry.len(), 1);
    assert_eq!(sorted_bits(registry.snapshot()), vec![9]);
    assert_eq!(registry.send_to(id, "x"), Some(SendOutcome::Accepted));
    assert_eq!(second_rx.try_recv().ok(), Some("x".to_string()));
    assert!(first_rx.try_recv().is_err());
}

#[test]
fn unregister_removes_and_is_idempotent() {
    let mut registry = SessionRegistry::new();
    let id = ConnectionId::from_bits(5);
    registry.register(id, handle());
    registry.register(ConnectionId::from_bits(6), handle());
    assert!(registry.unregister(id).is_some());
    assert!(!registry.contains(id));
    assert_eq!(sorted_bits(registry.snapshot()), vec![6]);
    assert!(registry.unregister(id).is_none());
    assert_eq!(registry.len(), 1);
    assert_eq!(sorted_bits(registry.snapshot()), vec![6]);
}

#[test]
fn unregister_of_an_absent_id_changes_nothing() {
    let mut registry = SessionRegistry::new();
    registry.register(ConnectionId::from_bits(1), handle());
    assert!(registry.unregister(ConnectionId::from_bits(2)).is_none());
    assert_eq!(registry.len(), 1);
}

#[test]
fn snapshot_after_unregister_never_lists_the_id() {
    let mut registry = SessionRegistry::new();
    let id = ConnectionId::from_bits(42);
    for round in 0..3u128 {
        registry.register(id, handle());
        registry.register(ConnectionId::from_bits(100 + round), handle());
        registry.unregister(id);
        assert!(!registry.snapshot().contains(&id));
    }
    assert_eq!(sorted_bits(registry.snapshot()), vec![100, 101, 102]);
}

#[test]
fn send_to_reaches_only_the_named_connection() {
    let mut registry = SessionRegistry::new();
    let (a, mut a_rx) = ConnectionHandle::open(ConnectionKind::Interactive);
    let (b, mut b_rx) = ConnectionHandle::open(ConnectionKind::Interactive);
    registry.register(ConnectionId::from_bits(1), a);
    registry.register(ConnectionId::from_bits(2), b);
    assert_eq!(registry.send_to(ConnectionId::from_bits(1), "hi"), Some(SendOutcome::Accepted));
    assert_eq!(a_rx.try_recv().ok(), Some("hi".to_string()));
    assert!(b_rx.try_recv().is_err());
    assert_eq!(registry.len(), 2);
}

#[test]
fn send_to_an_absent_id_returns_nothing() {
    let mut registry = SessionRegistry::new();
    assert_eq!(registry.send_to(ConnectionId::from_bits(1), "hi"), None);
    assert_eq!(registry.len(), 0);
}

#[test]
fn send_to_a_gone_consumer_reports_disconnected_and_keeps_the_entry() {
    let mut registry = SessionRegistry::new();
    let (a, a_rx) = ConnectionHandle::open(ConnectionKind::Interactive);
    registry.register(ConnectionId::from_bits(1), a);
    drop(a_rx);
    assert_eq!(
        registry.send_to(ConnectionId::from_bits(1), "hi"),
        Some(SendOutcome::Disconnected)
    );
    assert!(registry.contains(ConnectionId::from_bits(1)));
}
