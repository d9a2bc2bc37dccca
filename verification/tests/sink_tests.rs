use fanout_relay::sink::{ConnectionHandle, ConnectionKind, SendOutcome, QUEUE_BUFFER};

#[test]
fn open_keeps_the_kind() {
    let (interactive, _rx1) = ConnectionHandle::open(ConnectionKind::Interactive);
    let (push, _rx2) = ConnectionHandle::open(ConnectionKind::PushOnly);
    assert_eq!(interactive.kind(), ConnectionKind::Interactive);
    assert_eq!(push.kind(), ConnectionKind::PushOnly);
}

#[test]
fn offer_queues_the_payload_once_and_in_order() {
    let (mut handle, mut rx) = ConnectionHandle::open(ConnectionKind::Interactive);
    assert_eq!(handle.offer("one"), SendOutcome::Accepted);
    assert_eq!(handle.offer("two"), SendOutcome::Accepted);
    assert_eq!(rx.try_recv().ok(), Some("one".to_string()));
    assert_eq!(rx.try_recv().ok(), Some("two".to_string()));
    assert!(rx.try_recv().is_err());
}

#[test]
fn offer_to_a_dropped_consumer_is_disconnected() {
    let (mut handle, rx) = ConnectionHandle::open(ConnectionKind::PushOnly);
    drop(rx);
    assert_eq!(handle.offer("lost"), SendOutcome::Disconnected);
}

#[test]
fn offer_to_a_full_queue_is_full_and_queues_nothing() {
    let (mut handle, mut rx) = ConnectionHandle::open(ConnectionKind::PushOnly);
    let mut accepted = 0usize;
    loop {
        match handle.offer("p") {
            SendOutcome::Accepted => accepted += 1,
            SendOutcome::Full => break,
            SendOutcome::Disconnected => panic!("consumer is still there"),
        }
        assert!(accepted <= QUEUE_BUFFER + 1);
    }
    assert_eq!(accepted, QUEUE_BUFFER + 1);
    assert_eq!(handle.offer("q"), SendOutcome::Full);
    let mut drained = 0usize;
    while let Ok(p) = rx.try_recv() {
        assert_eq!(p, "p");
        drained += 1;
    }
    assert_eq!(drained, accepted);
}

#[test]
fn a_drained_queue_accepts_again() {
    let (mut handle, mut rx) = ConnectionHandle::open(ConnectionKind::PushOnly);
    while handle.offer("p") == SendOutcome::Accepted {}
    while rx.try_recv().is_ok() {}
    assert_eq!(handle.offer("fresh"), SendOutcome::Accepted);
    assert_eq!(rx.try_recv().ok(), Some("fresh".to_string()));
}

#[test]
fn close_ends_the_stream_after_the_queued_payloads() {
    let (mut handle, mut rx) = ConnectionHandle::open(ConnectionKind::Interactive);
    assert_eq!(handle.offer("last"), SendOutcome::Accepted);
    handle.close();
    assert_eq!(handle.offer("late"), SendOutcome::Disconnected);
    assert_eq!(rx.try_recv().ok(), Some("last".to_string()));
    assert!(rx.try_recv().unwrap_err().is_closed());
}

#[test]
fn a_new_handle_is_open_and_a_closed_one_stays_closed() {
    let (mut handle, _rx) = ConnectionHandle::open(ConnectionKind::Interactive);
    assert!(!handle.is_closed());
    assert_eq!(handle.offer("one"), SendOutcome::Accepted);
    assert!(!handle.is_closed());
    handle.close();
    assert!(handle.is_closed());
    assert_eq!(handle.offer("two"), SendOutcome::Disconnected);
    assert!(handle.is_closed());
    handle.close();
    assert!(handle.is_closed());
    assert_eq!(handle.kind(), ConnectionKind::Interactive);
}

#[test]
fn a_closed_handle_answers_disconnected_even_where_its_queue_is_full() {
    let (mut handle, mut rx) = ConnectionHandle::open(ConnectionKind::PushOnly);
    while handle.offer("p") == SendOutcome::Accepted {}
    assert_eq!(handle.offer("p"), SendOutcome::Full);
    handle.close();
    assert_eq!(handle.offer("late"), SendOutcome::Disconnected);
    let mut drained = 0usize;
    while let Ok(p) = rx.try_recv() {
        assert_eq!(p, "p");
        drained += 1;
    }
    assert_eq!(drained, QUEUE_BUFFER + 1);
    assert!(rx.try_recv().unwrap_err().is_closed());
}
