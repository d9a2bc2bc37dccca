//! The notification bridge: couples the shared notification channel to both
//! delivery paths.
//!
//! The bridge keeps one standing subscription. Every payload that arrives on
//! it goes, verbatim, to the bidirectional sessions through the broadcast
//! relay and to the push-stream consumers through their own bounded queues.
//! The caller owns the subscription and reports what happens on it as events.

use crate::heartbeat::{tick_action, HeartbeatMonitor, Liveness, MonitorAction};
use crate::ident::{is_random_uuid, ConnectionId};
use crate::lifecycle::{after_heartbeat, entries_after_heartbeat, finished, monitored};
use crate::lifecycle::{LifecycleState, Session};
use crate::registry::SessionRegistry;
use crate::relay::{attempted, delivered_ids, dropped_ids, evicted_ids, ids_of, key_set};
use crate::relay::{broadcast, deliver_all, lemma_fates, Attempt, DeliveryReport, OnFull};
use crate::sink::{ConnectionHandle, ConnectionKind};
use futures::channel::mpsc::Receiver;
use vstd::prelude::*;

verus! {

/// The live connections of one relay process, by delivery path.
pub struct FanOut {
    /// The session registry: the bidirectional connections.
    pub sessions: SessionRegistry,
    /// The output queues of the push-stream consumers.
    pub streams: SessionRegistry,
}

/// What became of one payload on both delivery paths.
pub struct DispatchReport {
    pub sessions: DeliveryReport,
    pub streams: DeliveryReport,
}

/// Whether `after` is `before` with a new, open and empty queue of the given
/// kind put in under `key`, and no other entry touched.
pub open spec fn gained(
    before: Map<u128, ConnectionHandle>,
    after: Map<u128, ConnectionHandle>,
    key: u128,
    kind: ConnectionKind,
) -> bool {
    &&& !before.contains_key(key)
    &&& after.dom() == before.dom().insert(key)
    &&& after[key].spec_kind() == kind
    &&& !after[key].spec_is_closed()
    &&& after[key].taken() == Seq::<Seq<char>>::empty()
    &&& forall|k: u128| before.contains_key(k) ==> #[trigger] after[k] == before[k]
}

/// What one dispatch of `payload` does to the relay. On both paths every
/// connection is attempted once. A session stays if and only if it took the
/// payload. A push-stream consumer stays unless it is gone; one whose queue
/// is full misses this payload.
pub open spec fn dispatched(
    before: FanOut,
    after: FanOut,
    payload: Seq<char>,
    report: DispatchReport,
) -> bool {
    &&& report.sessions.records(before.sessions@, after.sessions@, payload)
    &&& report.sessions.dropped@.len() == 0
    &&& after.sessions@.dom() == key_set(report.sessions.delivered@)
    &&& report.streams.records(before.streams@, after.streams@, payload)
}

/// Forwards `payload` to every push-stream consumer. A consumer whose queue
/// is full loses this payload and stays; a consumer that is gone is removed.
pub fn forward(streams: &mut SessionRegistry, payload: &str) -> (report: DeliveryReport)
    ensures
        report.records(old(streams)@, final(streams)@, payload@),
{
    deliver_all(streams, payload, OnFull::DropPayload)
}

impl FanOut {
    /// Whether `id` names a connection of the relay, on either path.
    pub open spec fn in_use(&self, id: ConnectionId) -> bool {
        self.sessions@.contains_key(id.bits) || self.streams@.contains_key(id.bits)
    }

    /// Whether `self` is `before` with the open session `session`,
    /// established at `now`, registered under an identifier that was not in
    /// use.
    pub open spec fn with_session(&self, before: FanOut, session: Session, now: u64) -> bool {
        &&& !before.in_use(session.id)
        &&& session.state == LifecycleState::Open
        &&& session.monitor == (HeartbeatMonitor { last_signal: now, liveness: Liveness::Alive })
        &&& gained(before.sessions@, self.sessions@, session.id.bits, ConnectionKind::Interactive)
        &&& self.streams@ == before.streams@
    }

    /// Whether `self` is `before` with an output queue opened under `id`,
    /// which was not in use.
    pub open spec fn with_stream(&self, before: FanOut, id: ConnectionId) -> bool {
        &&& !before.in_use(id)
        &&& gained(before.streams@, self.streams@, id.bits, ConnectionKind::PushOnly)
        &&& self.sessions@ == before.sessions@
    }

    /// Whether some identifier in the shape of a random UUID names a
    /// connection of the relay. Only then can a newly drawn identifier be in
    /// use.
    pub open spec fn holds_random_id(&self) -> bool {
        exists|id: ConnectionId| is_random_uuid(id.bits) && #[trigger] self.in_use(id)
    }

    /// Whether `self` holds the same connections as `before`, untouched.
    pub open spec fn unchanged(&self, before: FanOut) -> bool {
        self.sessions@ == before.sessions@ && self.streams@ == before.streams@
    }

    /// A relay without connections.
    pub fn new() -> (fanout: FanOut)
        ensures
            fanout.sessions@ == Map::<u128, ConnectionHandle>::empty(),
            fanout.streams@ == Map::<u128, ConnectionHandle>::empty(),
    {
        FanOut { sessions: SessionRegistry::new(), streams: SessionRegistry::new() }
    }

    /// Whether `id` names a connection of the relay, on either path.
    pub fn uses(&self, id: ConnectionId) -> (used: bool)
        ensures
            used == self.in_use(id),
    {
        self.sessions.contains(id) || self.streams.contains(id)
    }

    /// Establishes a bidirectional connection accepted at `now` under the
    /// identifier `id`: registers a handle and returns the open session with
    /// the receiving end of its queue. An identifier is never reused while
    /// it names a connection: if `id` is in use, nothing is done.
    pub fn attach_session_as(&mut self, id: ConnectionId, now: u64) -> (ends: Option<
        (Session, Receiver<String>),
    >)
        ensures
            match ends {
                Some((session, _)) => session.id == id && final(self).with_session(
                    *old(self),
                    session,
                    now,
                ),
                None => old(self).in_use(id) && final(self).unchanged(*old(self)),
            },
    {
        if self.uses(id) {
            return None;
        }
        let mut session = Session::with_id(id, now);
        let (handle, rx) = ConnectionHandle::open(ConnectionKind::Interactive);
        self.sessions.register(id, handle);
        session.opened();
        Some((session, rx))
    }

    /// Establishes a bidirectional connection accepted at `now` under a new
    /// random identifier. Returns nothing, and does nothing, in the event
    /// that the identifier drawn is in use. That can only be where the
    /// relay holds a connection under a random identifier: a relay without
    /// one always takes the connection.
    pub fn attach_session(&mut self, now: u64) -> (ends: Option<(Session, Receiver<String>)>)
        ensures
            match ends {
                Some((session, _)) => is_random_uuid(session.id.bits) && final(self).with_session(
                    *old(self),
                    session,
                    now,
                ),
                None => old(self).holds_random_id() && final(self).unchanged(*old(self)),
            },
    {
        let id = ConnectionId::fresh();
        let ends = self.attach_session_as(id, now);
        proof {
            if ends is None {
                assert(old(self).in_use(id));
            }
        }
        ends
    }

    /// Establishes a push-stream connection under the identifier `id`: opens
    /// its output queue and returns the receiving end. If `id` is in use,
    /// nothing is done.
    pub fn attach_stream_as(&mut self, id: ConnectionId) -> (outbox: Option<Receiver<String>>)
        ensures
            match outbox {
                Some(_) => final(self).with_stream(*old(self), id),
                None => old(self).in_use(id) && final(self).unchanged(*old(self)),
            },
    {
        if self.uses(id) {
            return None;
        }
        let (handle, rx) = ConnectionHandle::open(ConnectionKind::PushOnly);
        self.streams.register(id, handle);
        Some(rx)
    }

    /// Establishes a push-stream connection under a new random identifier.
    /// Returns nothing, and does nothing, in the event that the identifier
    /// drawn is in use. That can only be where the relay holds a connection
    /// under a random identifier: a relay without one always takes the
    /// connection.
    pub fn attach_stream(&mut self) -> (ends: Option<(ConnectionId, Receiver<String>)>)
        ensures
            match ends {
                Some((id, _)) => is_random_uuid(id.bits) && final(self).with_stream(
                    *old(self),
                    id,
                ),
                None => old(self).holds_random_id() && final(self).unchanged(*old(self)),
            },
    {
        let id = ConnectionId::fresh();
        match self.attach_stream_as(id) {
            Some(rx) => Some((id, rx)),
            None => {
                assert(old(self).in_use(id));
                None
            },
        }
    }

    /// Ends a bidirectional connection from whatever state it is in.
    pub fn close_session(&mut self, session: &mut Session)
        ensures
            *final(session) == finished(*old(session)),
            final(self).sessions@ == old(self).sessions@.remove(old(session).id.bits),
            final(self).streams@ == old(self).streams@,
    {
        session.finish(&mut self.sessions);
    }

    /// One heartbeat of a bidirectional connection at `now`. A session that
    /// has been silent for longer than the liveness window is closed and
    /// unregistered.
    pub fn heartbeat(&mut self, session: &mut Session, now: u64) -> (action: MonitorAction)
        ensures
            *final(session) == after_heartbeat(*old(session), now as int),
            final(self).sessions@ == entries_after_heartbeat(
                *old(session),
                old(self).sessions@,
                now as int,
            ),
            final(self).streams@ == old(self).streams@,
            action == if monitored(old(session).state) {
                tick_action(old(session).monitor, now as int)
            } else {
                MonitorAction::Idle
            },
    {
        session.heartbeat(&mut self.sessions, now)
    }

    /// Tears down the output queue of a push-stream consumer.
    pub fn detach_stream(&mut self, id: ConnectionId)
        ensures
            final(self).streams@ == old(self).streams@.remove(id.bits),
            final(self).sessions@ == old(self).sessions@,
    {
        self.streams.evict(id);
    }

    /// Hands one payload to both delivery paths: broadcasts it to the
    /// sessions, then forwards it to the push-stream consumers. Neither path
    /// waits, and a failure on one connection touches no other.
    pub fn dispatch(&mut self, payload: &str) -> (report: DispatchReport)
        ensures
            dispatched(*old(self), *final(self), payload@, report),
    {
        let sessions = broadcast(&mut self.sessions, payload);
        let streams = forward(&mut self.streams, payload);
        DispatchReport { sessions, streams }
    }
}

/// Where the bridge stands with its subscription.
#[derive(Clone, Copy, Debug, PartialEq, Eq, Structural)]
pub enum BridgeState {
    /// The subscription is being set up.
    Subscribing,
    /// The subscription stands; notifications are dispatched.
    Listening,
    /// The subscription could not be set up or was lost. Final.
    Failed,
}

/// What the caller saw on the subscription.
#[derive(Debug, PartialEq, Eq)]
pub enum BridgeEvent {
    /// The subscription stands.
    Subscribed,
    /// The subscription could not be set up.
    SubscribeFailed,
    /// A notification with this payload arrived.
    Notification(String),
    /// A notification arrived whose payload could not be read as text.
    Undecodable,
    /// The subscription ended.
    SubscriptionLost,
}

/// Why the bridge cannot go on.
#[derive(Clone, Copy, Debug, PartialEq, Eq, Structural)]
pub enum BridgeFault {
    CannotSubscribe,
    SubscriptionLost,
}

/// What the bridge did with an event.
pub enum BridgeOutcome {
    /// The bridge now listens.
    Ready,
    /// The payload went to both delivery paths.
    Dispatched(DispatchReport),
    /// The notification was skipped; the bridge listens on.
    Skipped,
    /// The bridge has failed. The caller must report this to the operator.
    Fatal(BridgeFault),
    /// The bridge had failed before; the event was not acted on.
    Halted,
    /// The event does not belong to the state the bridge is in.
    Ignored,
}

/// The state that follows `state` on `event`.
pub open spec fn bridge_next(state: BridgeState, event: BridgeEvent) -> BridgeState {
    match (state, event) {
        (BridgeState::Subscribing, BridgeEvent::Subscribed) => BridgeState::Listening,
        (BridgeState::Subscribing, BridgeEvent::SubscribeFailed) => BridgeState::Failed,
        (BridgeState::Listening, BridgeEvent::SubscriptionLost) => BridgeState::Failed,
        _ => state,
    }
}

/// Whether `outcome` is the answer that `event` calls for in `state`, but for
/// the report that a dispatch carries.
pub open spec fn answers(state: BridgeState, event: BridgeEvent, outcome: BridgeOutcome) -> bool {
    match (state, event) {
        (BridgeState::Failed, _) => outcome is Halted,
        (BridgeState::Subscribing, BridgeEvent::Subscribed) => outcome is Ready,
        (BridgeState::Subscribing, BridgeEvent::SubscribeFailed) => outcome matches BridgeOutcome::Fatal(
            BridgeFault::CannotSubscribe,
        ),
        (BridgeState::Listening, BridgeEvent::Notification(_)) => outcome is Dispatched,
        (BridgeState::Listening, BridgeEvent::Undecodable) => outcome is Skipped,
        (BridgeState::Listening, BridgeEvent::SubscriptionLost) => outcome matches BridgeOutcome::Fatal(
            BridgeFault::SubscriptionLost,
        ),
        _ => outcome is Ignored,
    }
}

/// The notification bridge of one relay process.
#[derive(Clone, Copy, Debug, PartialEq, Eq, Structural)]
pub struct Bridge {
    pub state: BridgeState,
}

impl Bridge {
    /// A bridge that is about to subscribe.
    pub fn new() -> (bridge: Bridge)
        ensures
            bridge.state == BridgeState::Subscribing,
    {
        Bridge { state: BridgeState::Subscribing }
    }

    /// Takes one event of the subscription. A notification that arrives
    /// while the bridge listens is dispatched to `fanout`; nothing else
    /// touches the connections.
    pub fn on_event(&mut self, fanout: &mut FanOut, event: BridgeEvent) -> (outcome: BridgeOutcome)
        ensures
            final(self).state == bridge_next(old(self).state, event),
            answers(old(self).state, event, outcome),
            match outcome {
                BridgeOutcome::Dispatched(report) => event matches BridgeEvent::Notification(payload)
                    && dispatched(*old(fanout), *final(fanout), payload@, report),
                _ => final(fanout).unchanged(*old(fanout)),
            },
    {
        match self.state {
            BridgeState::Failed => BridgeOutcome::Halted,
            BridgeState::Subscribing => {
                match event {
                    BridgeEvent::Subscribed => {
                        self.state = BridgeState::Listening;
                        BridgeOutcome::Ready
                    },
                    BridgeEvent::SubscribeFailed => {
                        self.state = BridgeState::Failed;
                        BridgeOutcome::Fatal(BridgeFault::CannotSubscribe)
                    },
                    _ => BridgeOutcome::Ignored,
                }
            },
            BridgeState::Listening => {
                match event {
                    BridgeEvent::Notification(payload) => {
                        let report = fanout.dispatch(payload.as_str());
                        BridgeOutcome::Dispatched(report)
                    },
                    BridgeEvent::Undecodable => BridgeOutcome::Skipped,
                    BridgeEvent::SubscriptionLost => {
                        self.state = BridgeState::Failed;
                        BridgeOutcome::Fatal(BridgeFault::SubscriptionLost)
                    },
                    _ => BridgeOutcome::Ignored,
                }
            },
        }
    }
}

/// Each connection's fate is its own. Take two runs of one broadcast to the
/// same connections, alike in every outcome but that of `slow`, whose queue
/// may be full in the one run and not in the other. Then every other
/// connection fares in the one run exactly as in the other: it is delivered
/// to, dropped for or evicted alike, it has taken the same payloads, and it
/// stays registered alike.
pub proof fn lemma_isolation(
    on_full: OnFull,
    before: Map<u128, ConnectionHandle>,
    payload: Seq<char>,
    run: Seq<Attempt>,
    run_offered: Map<u128, ConnectionHandle>,
    rerun: Seq<Attempt>,
    rerun_offered: Map<u128, ConnectionHandle>,
    slow: ConnectionId,
    other: ConnectionId,
)
    requires
        attempted(before, run_offered, payload, run),
        attempted(before, rerun_offered, payload, rerun),
        ids_of(run) == ids_of(rerun),
        forall|i: int|
            0 <= i < run.len() && run[i].id != slow ==> (#[trigger] run[i]).outcome
                == rerun[i].outcome,
        other != slow,
        before.contains_key(other.bits),
    ensures
        delivered_ids(run).contains(other) <==> delivered_ids(rerun).contains(other),
        dropped_ids(on_full, run).contains(other) <==> dropped_ids(on_full, rerun).contains(other),
        evicted_ids(on_full, run).contains(other) <==> evicted_ids(on_full, rerun).contains(other),
        run_offered[other.bits].taken() == rerun_offered[other.bits].taken(),
        run_offered.remove_keys(key_set(evicted_ids(on_full, run))).contains_key(other.bits)
            <==> rerun_offered.remove_keys(key_set(evicted_ids(on_full, rerun))).contains_key(
            other.bits,
        ),
{
    lemma_fates(on_full, run);
    lemma_fates(on_full, rerun);
    assert(run.len() == ids_of(run).len());
    assert(rerun.len() == ids_of(rerun).len());
    assert(key_set(ids_of(run)).contains(other.bits));
    let i = choose|i: int| 0 <= i < run.len() && ids_of(run)[i] == other;
    assert(run[i].id == other);
    assert(ids_of(rerun)[i] == other);
    assert(rerun[i].id == other);
    assert(run[i].outcome == rerun[i].outcome);
}

} // verus!
