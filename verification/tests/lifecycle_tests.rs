use fanout_relay::heartbeat::{Liveness, MonitorAction};
use fanout_relay::ident::ConnectionId;
use fanout_relay::lifecycle::{CloseNotice, Frame, LifecycleState, Reaction, Session};
use fanout_relay::registry::SessionRegistry;
use fanout_relay::sink::{ConnectionHandle, ConnectionKind};

fn open_session(now: u64) -> Session {
    let mut s = Session::with_id(ConnectionId::from_bits(1), now);
    s.opened();
    s
}

#[test]
fn establish_starts_establishing_and_alive() {
    let s = Session::establish(5);
    assert!(s.id.is_random());
    assert_eq!(s.state, LifecycleState::Establishing);
    assert_eq!(s.monitor.last_signal, 5);
    assert_eq!(s.monitor.liveness, Liveness::Alive);
}

#[test]
fn opened_moves_only_an_establishing_session() {
    let mut s = Session::with_id(ConnectionId::from_bits(1), 0);
    s.opened();
    assert_eq!(s.state, LifecycleState::Open);
    s.shutdown();
    assert_eq!(s.state, LifecycleState::Closing);
    s.opened();
    assert_eq!(s.state, LifecycleState::Closing);
}

#[test]
fn ping_is_answered_with_its_payload_and_counts_as_signal() {
    let mut s = open_session(0);
    let reaction = s.on_frame(Frame::Ping(vec![1, 2, 3]), 12);
    assert_eq!(reaction, Reaction::Pong(vec![1, 2, 3]));
    assert_eq!(s.monitor.last_signal, 12);
    assert_eq!(s.state, LifecycleState::Open);
}

#[test]
fn pong_counts_as_signal_and_needs_no_answer() {
    let mut s = open_session(0);
    assert_eq!(s.on_frame(Frame::Pong, 9), Reaction::Ignore);
    assert_eq!(s.monitor.last_signal, 9);
}

#[test]
fn text_is_echoed_and_is_no_liveness_signal() {
    let mut s = open_session(0);
    let reaction = s.on_frame(Frame::Text("hi".to_string()), 20);
    assert_eq!(reaction, Reaction::Echo("hi".to_string()));
    assert_eq!(s.monitor.last_signal, 0);
    assert_eq!(s.state, LifecycleState::Open);
}

#[test]
fn close_frame_is_answered_with_its_reason_and_starts_closing() {
    let mut s = open_session(0);
    let notice = CloseNotice { code: 1000, description: Some("bye".to_string()) };
    let reaction = s.on_frame(Frame::Close(Some(notice)), 3);
    assert_eq!(
        reaction,
        Reaction::Close(Some(CloseNotice { code: 1000, description: Some("bye".to_string()) }))
    );
    assert_eq!(s.state, LifecycleState::Closing);
    let mut t = open_session(0);
    assert_eq!(t.on_frame(Frame::Close(None), 3), Reaction::Close(None));
    assert_eq!(t.state, LifecycleState::Closing);
}

#[test]
fn other_frames_are_ignored() {
    let mut s = open_session(0);
    assert_eq!(s.on_frame(Frame::Other, 3), Reaction::Ignore);
    assert_eq!(s, open_session(0));
}

#[test]
fn frames_count_only_while_open() {
    let mut establishing = Session::with_id(ConnectionId::from_bits(1), 0);
    assert_eq!(establishing.on_frame(Frame::Ping(vec![9]), 4), Reaction::Ignore);
    assert_eq!(establishing.monitor.last_signal, 0);
    let mut closing = open_session(0);
    closing.shutdown();
    assert_eq!(closing.on_frame(Frame::Text("x".to_string()), 4), Reaction::Ignore);
    assert_eq!(closing.on_frame(Frame::Pong, 4), Reaction::Ignore);
    assert_eq!(closing.monitor.last_signal, 0);
    assert_eq!(closing.state, LifecycleState::Closing);
}

#[test]
fn tick_times_out_a_silent_session() {
    let mut s = open_session(0);
    assert_eq!(s.on_tick(10), MonitorAction::Probe);
    assert_eq!(s.on_tick(31), MonitorAction::Close);
    assert_eq!(s.state, LifecycleState::Closing);
    assert_eq!(s.monitor.liveness, Liveness::Closing);
    assert_eq!(s.on_tick(41), MonitorAction::Idle);
}

#[test]
fn tick_times_out_a_session_that_never_opened() {
    let mut s = Session::with_id(ConnectionId::from_bits(1), 0);
    assert_eq!(s.on_tick(40), MonitorAction::Close);
    assert_eq!(s.state, LifecycleState::Closing);
}

#[test]
fn finish_closes_from_every_state_and_unregisters() {
    for stage in 0..4 {
        let mut registry = SessionRegistry::new();
        let mut s = Session::with_id(ConnectionId::from_bits(77), 0);
        registry.register(s.id, ConnectionHandle::open(ConnectionKind::Interactive).0);
        registry.register(
            ConnectionId::from_bits(78),
            ConnectionHandle::open(ConnectionKind::Interactive).0,
        );
        if stage >= 1 {
            s.opened();
        }
        if stage >= 2 {
            s.shutdown();
        }
        if stage >= 3 {
            s.finish(&mut registry);
        }
        s.finish(&mut registry);
        assert_eq!(s.state, LifecycleState::Closed);
        assert_eq!(s.monitor.liveness, Liveness::Terminated);
        assert!(!registry.contains(s.id));
        assert!(registry.contains(ConnectionId::from_bits(78)));
        assert_eq!(registry.len(), 1);
    }
}

#[test]
fn closed_is_final() {
    let mut registry = SessionRegistry::new();
    let mut s = open_session(0);
    s.finish(&mut registry);
    s.opened();
    s.shutdown();
    assert_eq!(s.on_frame(Frame::Close(None), 1), Reaction::Ignore);
    assert_eq!(s.on_tick(100), MonitorAction::Idle);
    assert_eq!(s.state, LifecycleState::Closed);
}

#[test]
fn heartbeat_probes_a_live_session_and_ends_a_silent_one() {
    let mut registry = SessionRegistry::new();
    let mut s = open_session(0);
    registry.register(s.id, ConnectionHandle::open(ConnectionKind::Interactive).0);
    assert_eq!(s.heartbeat(&mut registry, 30), MonitorAction::Probe);
    assert_eq!(s.state, LifecycleState::Open);
    assert!(registry.contains(s.id));
    assert_eq!(s.heartbeat(&mut registry, 31), MonitorAction::Close);
    assert_eq!(s.state, LifecycleState::Closed);
    assert_eq!(s.monitor.liveness, Liveness::Terminated);
    assert!(!registry.contains(s.id));
    assert_eq!(s.heartbeat(&mut registry, 41), MonitorAction::Idle);
}

#[test]
fn heartbeat_of_a_closing_session_touches_nothing() {
    let mut registry = SessionRegistry::new();
    let mut s = open_session(0);
    registry.register(s.id, ConnectionHandle::open(ConnectionKind::Interactive).0);
    s.shutdown();
    assert_eq!(s.heartbeat(&mut registry, 100), MonitorAction::Idle);
    assert_eq!(s.state, LifecycleState::Closing);
    assert!(registry.contains(s.id));
}
