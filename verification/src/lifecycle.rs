//! The lifecycle of one bidirectional connection.
//!
//! A session is driven by events: registration, inbound frames, ticks of its
//! heartbeat monitor, shutdown. Each event yields the next state and what the
//! caller has to do on the wire.

use crate::heartbeat::{lemma_silent_connection_closes, tick_time};
use crate::heartbeat::{signalled, terminated, tick_action, ticked};
use crate::heartbeat::{HeartbeatMonitor, Liveness, MonitorAction};
use crate::heartbeat::{LIVENESS_WINDOW, PROBE_CADENCE};
use crate::ident::{is_random_uuid, ConnectionId};
use crate::registry::SessionRegistry;
use crate::sink::ConnectionHandle;
use vstd::prelude::*;

verus! {

/// The states of a bidirectional connection.
#[derive(Clone, Copy, Debug, PartialEq, Eq, Structural)]
pub enum LifecycleState {
    /// Accepted, not yet registered.
    Establishing,
    /// Registered; inbound frames are processed.
    Open,
    /// On its way out: a close frame, a heartbeat timeout or a shutdown.
    Closing,
    /// Unregistered; its resources are released.
    Closed,
}

/// What can happen to a connection.
#[derive(Clone, Copy, Debug, PartialEq, Eq, Structural)]
pub enum LifecycleEvent {
    /// Registration in the session registry is complete.
    Registered,
    /// The client sent a close frame.
    CloseFrame,
    /// The heartbeat monitor found the connection silent for too long.
    HeartbeatTimeout,
    /// The process shuts down.
    Shutdown,
    /// The connection is out of the session registry.
    Unregistered,
}

/// The state that follows `state` on `event`.
pub open spec fn next_state(state: LifecycleState, event: LifecycleEvent) -> LifecycleState {
    match (state, event) {
        (LifecycleState::Establishing, LifecycleEvent::Registered) => LifecycleState::Open,
        (LifecycleState::Establishing, LifecycleEvent::HeartbeatTimeout) => LifecycleState::Closing,
        (LifecycleState::Establishing, LifecycleEvent::Shutdown) => LifecycleState::Closing,
        (LifecycleState::Open, LifecycleEvent::CloseFrame) => LifecycleState::Closing,
        (LifecycleState::Open, LifecycleEvent::HeartbeatTimeout) => LifecycleState::Closing,
        (LifecycleState::Open, LifecycleEvent::Shutdown) => LifecycleState::Closing,
        (LifecycleState::Closing, LifecycleEvent::Unregistered) => LifecycleState::Closed,
        _ => state,
    }
}

/// The state after both a shutdown and the removal from the registry.
pub open spec fn wound_up(state: LifecycleState) -> LifecycleState {
    next_state(next_state(state, LifecycleEvent::Shutdown), LifecycleEvent::Unregistered)
}

/// The reason that a close frame carries: a status code and a text.
#[derive(Debug, PartialEq, Eq)]
pub struct CloseNotice {
    pub code: u16,
    pub description: Option<String>,
}

/// An inbound frame, as far as the session reads it.
#[derive(Debug, PartialEq, Eq)]
pub enum Frame {
    /// A ping with its payload.
    Ping(Vec<u8>),
    /// The acknowledgment of a ping.
    Pong,
    /// A text frame.
    Text(String),
    /// A close frame, with its reason if it gave one.
    Close(Option<CloseNotice>),
    /// Any other frame.
    Other,
}

/// What the caller sends in answer to a frame.
#[derive(Debug, PartialEq, Eq)]
pub enum Reaction {
    /// A pong with the payload of the ping.
    Pong(Vec<u8>),
    /// The text, back to the same connection.
    Echo(String),
    /// A close frame with the client's own reason; then stop.
    Close(Option<CloseNotice>),
    /// Nothing.
    Ignore,
}

/// One bidirectional connection: its identifier, its place in the lifecycle
/// and its heartbeat monitor.
#[derive(Clone, Copy, Debug, PartialEq, Eq, Structural)]
pub struct Session {
    pub id: ConnectionId,
    pub state: LifecycleState,
    pub monitor: HeartbeatMonitor,
}

/// The session after `frame` arrived at `now`. Frames count only while the
/// session is open. A ping or a pong is a liveness signal; a close frame
/// starts the way out.
pub open spec fn after_frame(s: Session, frame: Frame, now: u64) -> Session {
    if s.state != LifecycleState::Open {
        s
    } else {
        match frame {
            Frame::Ping(_) => Session { monitor: signalled(s.monitor, now), ..s },
            Frame::Pong => Session { monitor: signalled(s.monitor, now), ..s },
            Frame::Close(_) => Session { state: LifecycleState::Closing, ..s },
            _ => s,
        }
    }
}

/// The answer that `frame` calls for.
pub open spec fn reaction_to(s: Session, frame: Frame) -> Reaction {
    if s.state != LifecycleState::Open {
        Reaction::Ignore
    } else {
        match frame {
            Frame::Ping(payload) => Reaction::Pong(payload),
            Frame::Pong => Reaction::Ignore,
            Frame::Text(text) => Reaction::Echo(text),
            Frame::Close(notice) => Reaction::Close(notice),
            Frame::Other => Reaction::Ignore,
        }
    }
}

/// Whether the heartbeat monitor runs in `state`.
pub open spec fn monitored(state: LifecycleState) -> bool {
    state == LifecycleState::Establishing || state == LifecycleState::Open
}

/// Whether a tick at `now` finds the session silent for too long.
pub open spec fn times_out(s: Session, now: int) -> bool {
    monitored(s.state) && tick_action(s.monitor, now) == MonitorAction::Close
}

/// The session after a tick of its monitor at `now`.
pub open spec fn after_tick(s: Session, now: int) -> Session {
    if !monitored(s.state) {
        s
    } else if times_out(s, now) {
        Session {
            state: next_state(s.state, LifecycleEvent::HeartbeatTimeout),
            monitor: ticked(s.monitor, now),
            ..s
        }
    } else {
        Session { monitor: ticked(s.monitor, now), ..s }
    }
}

/// The session once it has been ended, from whatever state it was in.
pub open spec fn finished(s: Session) -> Session {
    Session { id: s.id, state: LifecycleState::Closed, monitor: terminated(s.monitor) }
}

/// The session after a heartbeat at `now`: a tick, and the end of the session
/// if the tick finds it silent for too long.
pub open spec fn after_heartbeat(s: Session, now: int) -> Session {
    if times_out(s, now) {
        finished(after_tick(s, now))
    } else {
        after_tick(s, now)
    }
}

/// The registry entries after a heartbeat of `s` at `now`: a session that
/// times out is unregistered.
pub open spec fn entries_after_heartbeat(
    s: Session,
    entries: Map<u128, ConnectionHandle>,
    now: int,
) -> Map<u128, ConnectionHandle> {
    if times_out(s, now) {
        entries.remove(s.id.bits)
    } else {
        entries
    }
}

impl Session {
    /// A session for a connection accepted at `now`, under a new random
    /// identifier.
    pub fn establish(now: u64) -> (s: Session)
        ensures
            is_random_uuid(s.id.bits),
            s.state == LifecycleState::Establishing,
            s.monitor == (HeartbeatMonitor { last_signal: now, liveness: Liveness::Alive }),
    {
        Session::with_id(ConnectionId::fresh(), now)
    }

    /// A session for a connection accepted at `now`, under the given
    /// identifier.
    pub fn with_id(id: ConnectionId, now: u64) -> (s: Session)
        ensures
            s == (Session {
                id,
                state: LifecycleState::Establishing,
                monitor: HeartbeatMonitor { last_signal: now, liveness: Liveness::Alive },
            }),
    {
        Session { id, state: LifecycleState::Establishing, monitor: HeartbeatMonitor::start(now) }
    }

    /// Registration is complete: an establishing session opens.
    pub fn opened(&mut self)
        ensures
            *final(self) == (Session {
                state: next_state(old(self).state, LifecycleEvent::Registered),
                ..*old(self)
            }),
    {
        match self.state {
            LifecycleState::Establishing => {
                self.state = LifecycleState::Open;
            },
            _ => {},
        }
    }

    /// Takes one inbound frame, seen at `now`, and returns the answer to send.
    pub fn on_frame(&mut self, frame: Frame, now: u64) -> (reaction: Reaction)
        ensures
            *final(self) == after_frame(*old(self), frame, now),
            reaction == reaction_to(*old(self), frame),
    {
        match self.state {
            LifecycleState::Open => {
                match frame {
                    Frame::Ping(payload) => {
                        self.monitor.signal(now);
                        Reaction::Pong(payload)
                    },
                    Frame::Pong => {
                        self.monitor.signal(now);
                        Reaction::Ignore
                    },
                    Frame::Text(text) => Reaction::Echo(text),
                    Frame::Close(notice) => {
                        self.state = LifecycleState::Closing;
                        Reaction::Close(notice)
                    },
                    Frame::Other => Reaction::Ignore,
                }
            },
            _ => Reaction::Ignore,
        }
    }

    /// One tick of the heartbeat monitor at `now`. A session that has been
    /// silent for longer than the liveness window starts its way out.
    pub fn on_tick(&mut self, now: u64) -> (action: MonitorAction)
        ensures
            *final(self) == after_tick(*old(self), now as int),
            action == if monitored(old(self).state) {
                tick_action(old(self).monitor, now as int)
            } else {
                MonitorAction::Idle
            },
    {
        match self.state {
            LifecycleState::Establishing | LifecycleState::Open => {
                let action = self.monitor.tick(now);
                match action {
                    MonitorAction::Close => {
                        self.state = LifecycleState::Closing;
                    },
                    _ => {},
                }
                action
            },
            _ => MonitorAction::Idle,
        }
    }

    /// The process shuts down: the session starts its way out.
    pub fn shutdown(&mut self)
        ensures
            *final(self) == (Session {
                state: next_state(old(self).state, LifecycleEvent::Shutdown),
                ..*old(self)
            }),
    {
        match self.state {
            LifecycleState::Establishing | LifecycleState::Open => {
                self.state = LifecycleState::Closing;
            },
            _ => {},
        }
    }

    /// Ends the session from whatever state it is in: takes it out of the
    /// registry, closes its queue, and leaves it closed with its monitor
    /// terminated.
    pub fn finish(&mut self, registry: &mut SessionRegistry)
        ensures
            *final(self) == finished(*old(self)),
            final(self).state == wound_up(old(self).state),
            final(registry)@ == old(registry)@.remove(old(self).id.bits),
    {
        registry.evict(self.id);
        self.monitor.terminate();
        self.state = LifecycleState::Closed;
    }

    /// One heartbeat at `now`: a tick of the monitor, and, where the tick
    /// finds the session silent for longer than the liveness window, its end.
    /// The timeout is no error: the session is closed and unregistered, and
    /// the caller is told to close the connection.
    pub fn heartbeat(&mut self, registry: &mut SessionRegistry, now: u64) -> (action: MonitorAction)
        ensures
            *final(self) == after_heartbeat(*old(self), now as int),
            final(registry)@ == entries_after_heartbeat(*old(self), old(registry)@, now as int),
            action == if monitored(old(self).state) {
                tick_action(old(self).monitor, now as int)
            } else {
                MonitorAction::Idle
            },
    {
        let action = self.on_tick(now);
        match action {
            MonitorAction::Close => {
                self.finish(registry);
            },
            _ => {},
        }
        action
    }
}

/// The session after its first `n` heartbeats, when no frame arrives in
/// between; the heartbeats come at the cadence of the monitor, counted from
/// `start`.
pub open spec fn after_heartbeats(s: Session, start: int, n: nat) -> Session
    decreases n,
{
    if n == 0 {
        s
    } else {
        after_heartbeat(after_heartbeats(s, start, (n - 1) as nat), tick_time(start, n))
    }
}

/// The registry entries after the first `n` heartbeats of `s`, when nothing
/// else touches the registry.
pub open spec fn entries_after_heartbeats(
    s: Session,
    entries: Map<u128, ConnectionHandle>,
    start: int,
    n: nat,
) -> Map<u128, ConnectionHandle>
    decreases n,
{
    if n == 0 {
        entries
    } else {
        entries_after_heartbeat(
            after_heartbeats(s, start, (n - 1) as nat),
            entries_after_heartbeats(s, entries, start, (n - 1) as nat),
            tick_time(start, n),
        )
    }
}

/// A silent session is unregistered within window plus cadence, and not
/// before the window has run out.
///
/// Take an open session whose last liveness signal came at or after the start
/// of its monitor, and let no frame arrive any more. While the heartbeats
/// fall within the window after that signal, the session and the registry
/// stay as they are. From the first heartbeat beyond the window on, the
/// session is closed and out of the registry, and that heartbeat comes no
/// later than window plus cadence after the signal.
pub proof fn lemma_silent_session_is_unregistered(
    s: Session,
    entries: Map<u128, ConnectionHandle>,
    start: int,
    n: nat,
)
    requires
        monitored(s.state),
        s.monitor.liveness == Liveness::Alive,
        0 <= start <= s.monitor.last_signal,
    ensures
        tick_time(start, n) <= s.monitor.last_signal + LIVENESS_WINDOW ==> {
            &&& after_heartbeats(s, start, n) == s
            &&& entries_after_heartbeats(s, entries, start, n) == entries
        },
        tick_time(start, n) > s.monitor.last_signal + LIVENESS_WINDOW ==> {
            &&& after_heartbeats(s, start, n).state == LifecycleState::Closed
            &&& after_heartbeats(s, start, n).id == s.id
            &&& entries_after_heartbeats(s, entries, start, n) == entries.remove(s.id.bits)
        },
        exists|k: nat|
            s.monitor.last_signal + LIVENESS_WINDOW < #[trigger] tick_time(start, k)
                <= s.monitor.last_signal + LIVENESS_WINDOW + PROBE_CADENCE,
    decreases n,
{
    lemma_silent_connection_closes(s.monitor, start, n);
    if n > 0 {
        lemma_silent_session_is_unregistered(s, entries, start, (n - 1) as nat);
        assert(tick_time(start, (n - 1) as nat) < tick_time(start, n));
        assert(entries.remove(s.id.bits).remove(s.id.bits) =~= entries.remove(s.id.bits));
    }
}

/// No exit path leaks a registry entry: from every state, a shutdown followed
/// by the removal from the registry ends in `Closed`, and `Closed` is final.
pub proof fn lemma_closed_is_reachable_and_final(state: LifecycleState, event: LifecycleEvent)
    ensures
        wound_up(state) == LifecycleState::Closed,
        next_state(LifecycleState::Closed, event) == LifecycleState::Closed,
{
}

} // verus!
