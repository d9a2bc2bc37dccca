use fanout_relay::ident::ConnectionId;
use fanout_relay::registry::SessionRegistry;
use fanout_relay::relay::{attempt_all, broadcast, deliver_all, settle, Attempt, OnFull};
use fanout_relay::sink::{ConnectionHandle, ConnectionKind, SendOutcome, QUEUE_BUFFER};
use futures::channel::mpsc::Receiver;

fn id(bits: u128) -> ConnectionId {
    ConnectionId::from_bits(bits)
}

fn connect(registry: &mut SessionRegistry, bits: u128) -> Receiver<String> {
    let (handle, rx) = ConnectionHandle::open(ConnectionKind::Interactive);
    registry.register(id(bits), handle);
    rx
}

fn drain(rx: &mut Receiver<String>) -> Vec<String> {
    let mut got = Vec::new();
    while let Ok(p) = rx.try_recv() {
        got.push(p);
    }
    got
}

fn sorted(ids: &Vec<ConnectionId>) -> Vec<u128> {
    let mut bits: Vec<u128> = ids.iter().map(|id| id.bits()).collect();
    bits.sort();
    bits
}

#[test]
fn broadcast_reaches_all_but_the_failed_connection() {
    let mut registry = SessionRegistry::new();
    let mut a = connect(&mut registry, 0xA);
    let b = connect(&mut registry, 0xB);
    let mut c = connect(&mut registry, 0xC);
    drop(b);
    let report = broadcast(&mut registry, "hello");
    assert_eq!(drain(&mut a), vec!["hello".to_string()]);
    assert_eq!(drain(&mut c), vec!["hello".to_string()]);
    assert_eq!(sorted(&registry.snapshot()), vec![0xA, 0xC]);
    assert_eq!(sorted(&report.delivered), vec![0xA, 0xC]);
    assert_eq!(sorted(&report.evicted), vec![0xB]);
    assert!(report.dropped.is_empty());
}

#[test]
fn broadcast_shrinks_the_registry_by_the_number_of_failures() {
    let mut registry = SessionRegistry::new();
    let mut live = Vec::new();
    for bits in 0..10u128 {
        let rx = connect(&mut registry, bits);
        if bits % 3 == 0 {
            drop(rx);
        } else {
            live.push((bits, rx));
        }
    }
    let report = broadcast(&mut registry, "payload");
    assert_eq!(report.evicted.len(), 4);
    assert_eq!(report.delivered.len(), 6);
    assert_eq!(registry.len(), 10 - 4);
    for (bits, rx) in live.iter_mut() {
        assert!(registry.contains(id(*bits)));
        assert_eq!(drain(rx), vec!["payload".to_string()]);
    }
    for bits in [0u128, 3, 6, 9] {
        assert!(!registry.contains(id(bits)));
    }
}

#[test]
fn broadcast_twice_delivers_twice() {
    let mut registry = SessionRegistry::new();
    let mut a = connect(&mut registry, 1);
    let mut b = connect(&mut registry, 2);
    let first = broadcast(&mut registry, "same");
    let second = broadcast(&mut registry, "same");
    assert_eq!(first.delivered.len(), 2);
    assert_eq!(second.delivered.len(), 2);
    assert_eq!(drain(&mut a), vec!["same".to_string(), "same".to_string()]);
    assert_eq!(drain(&mut b), vec!["same".to_string(), "same".to_string()]);
    assert_eq!(registry.len(), 2);
}

#[test]
fn broadcast_on_an_empty_registry_does_nothing() {
    let mut registry = SessionRegistry::new();
    let report = broadcast(&mut registry, "nobody");
    assert!(report.delivered.is_empty());
    assert!(report.dropped.is_empty());
    assert!(report.evicted.is_empty());
    assert!(registry.is_empty());
}

#[test]
fn broadcast_evicts_a_connection_that_cannot_keep_up() {
    let mut registry = SessionRegistry::new();
    let mut slow = connect(&mut registry, 1);
    let mut quick = connect(&mut registry, 2);
    for _ in 0..(QUEUE_BUFFER + 1) {
        let report = broadcast(&mut registry, "tick");
        assert_eq!(report.delivered.len(), 2);
        assert_eq!(drain(&mut quick), vec!["tick".to_string()]);
    }
    let report = broadcast(&mut registry, "one too many");
    assert_eq!(sorted(&report.evicted), vec![1]);
    assert_eq!(sorted(&report.delivered), vec![2]);
    assert_eq!(sorted(&registry.snapshot()), vec![2]);
    assert_eq!(drain(&mut quick), vec!["one too many".to_string()]);
    assert_eq!(drain(&mut slow).len(), QUEUE_BUFFER + 1);
    assert!(slow.try_recv().unwrap_err().is_closed());
    assert!(quick.try_recv().unwrap_err().is_empty());
}

#[test]
fn deliver_all_with_drop_keeps_a_full_consumer() {
    let mut registry = SessionRegistry::new();
    let mut slow = connect(&mut registry, 1);
    for _ in 0..(QUEUE_BUFFER + 1) {
        deliver_all(&mut registry, "tick", OnFull::DropPayload);
    }
    let report = deliver_all(&mut registry, "lost", OnFull::DropPayload);
    assert_eq!(sorted(&report.dropped), vec![1]);
    assert!(report.delivered.is_empty());
    assert!(report.evicted.is_empty());
    assert!(registry.contains(id(1)));
    let got = drain(&mut slow);
    assert_eq!(got.len(), QUEUE_BUFFER + 1);
    assert!(!got.contains(&"lost".to_string()));
}

#[test]
fn attempt_all_tries_every_entry_once_and_removes_none() {
    let mut registry = SessionRegistry::new();
    let mut a = connect(&mut registry, 1);
    let b = connect(&mut registry, 2);
    drop(b);
    let attempts = attempt_all(&mut registry, "p");
    assert_eq!(attempts.len(), 2);
    let mut seen: Vec<(u128, SendOutcome)> =
        attempts.iter().map(|a| (a.id.bits(), a.outcome)).collect();
    seen.sort_by_key(|s| s.0);
    assert_eq!(seen, vec![(1, SendOutcome::Accepted), (2, SendOutcome::Disconnected)]);
    assert_eq!(registry.len(), 2);
    assert_eq!(drain(&mut a), vec!["p".to_string()]);
}

#[test]
fn settle_sorts_the_attempts_in_order_and_unregisters_the_evicted() {
    let mut registry = SessionRegistry::new();
    let _rx: Vec<Receiver<String>> = (1..=5u128).map(|b| connect(&mut registry, b)).collect();
    let attempts = vec![
        Attempt { id: id(4), outcome: SendOutcome::Accepted },
        Attempt { id: id(2), outcome: SendOutcome::Full },
        Attempt { id: id(5), outcome: SendOutcome::Disconnected },
        Attempt { id: id(1), outcome: SendOutcome::Accepted },
        Attempt { id: id(3), outcome: SendOutcome::Full },
    ];
    let report = settle(&mut registry, &attempts, OnFull::Evict);
    assert_eq!(report.delivered, vec![id(4), id(1)]);
    assert_eq!(report.dropped, Vec::<ConnectionId>::new());
    assert_eq!(report.evicted, vec![id(2), id(5), id(3)]);
    assert_eq!(sorted(&registry.snapshot()), vec![1, 4]);
}

#[test]
fn settle_with_drop_keeps_the_full_ones() {
    let mut registry = SessionRegistry::new();
    let _rx: Vec<Receiver<String>> = (1..=5u128).map(|b| connect(&mut registry, b)).collect();
    let attempts = vec![
        Attempt { id: id(4), outcome: SendOutcome::Accepted },
        Attempt { id: id(2), outcome: SendOutcome::Full },
        Attempt { id: id(5), outcome: SendOutcome::Disconnected },
        Attempt { id: id(1), outcome: SendOutcome::Accepted },
        Attempt { id: id(3), outcome: SendOutcome::Full },
    ];
    let report = settle(&mut registry, &attempts, OnFull::DropPayload);
    assert_eq!(report.delivered, vec![id(4), id(1)]);
    assert_eq!(report.dropped, vec![id(2), id(3)]);
    assert_eq!(report.evicted, vec![id(5)]);
    assert_eq!(sorted(&registry.snapshot()), vec![1, 2, 3, 4]);
}

#[test]
fn settle_leaves_entries_without_an_attempt_alone() {
    let mut registry = SessionRegistry::new();
    let _a = connect(&mut registry, 1);
    let _b = connect(&mut registry, 2);
    let attempts = vec![
        Attempt { id: id(2), outcome: SendOutcome::Disconnected },
        Attempt { id: id(7), outcome: SendOutcome::Disconnected },
    ];
    let report = settle(&mut registry, &attempts, OnFull::Evict);
    assert_eq!(report.evicted, vec![id(2), id(7)]);
    assert_eq!(sorted(&registry.snapshot()), vec![1]);
}

#[test]
fn settle_of_no_attempts_changes_nothing() {
    let mut registry = SessionRegistry::new();
    let _a = connect(&mut registry, 1);
    let report = settle(&mut registry, &Vec::new(), OnFull::Evict);
    assert!(report.delivered.is_empty() && report.dropped.is_empty() && report.evicted.is_empty());
    assert_eq!(registry.len(), 1);
}
