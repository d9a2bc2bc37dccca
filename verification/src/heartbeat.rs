//! The heartbeat monitor: closes a bidirectional connection after prolonged
//! silence.
//!
//! Time is a count of time-units that the caller reads from its clock. The
//! monitor is ticked at a fixed cadence. At each tick an alive connection is
//! either probed, or, when its last liveness signal is older than the
//! liveness window, closed.

use vstd::prelude::*;

verus! {

/// Longest silence, in time-units, that leaves a connection alive.
pub const LIVENESS_WINDOW: u64 = 30;

/// Time-units between two ticks of the monitor.
pub const PROBE_CADENCE: u64 = 10;

/// Liveness of one bidirectional connection.
#[derive(Clone, Copy, Debug, PartialEq, Eq, Structural)]
pub enum Liveness {
    /// Signals arrive, or the window has not yet run out.
    Alive,
    /// The window ran out; the close handshake is under way.
    Closing,
    /// The close handshake is complete.
    Terminated,
}

/// What the caller does after a tick.
#[derive(Clone, Copy, Debug, PartialEq, Eq, Structural)]
pub enum MonitorAction {
    /// Send a ping to the client.
    Probe,
    /// Close the connection: it has been silent for longer than the window.
    Close,
    /// Nothing: the connection is no longer alive.
    Idle,
}

/// Per-connection liveness tracker.
#[derive(Clone, Copy, Debug, PartialEq, Eq, Structural)]
pub struct HeartbeatMonitor {
    /// Time of the last liveness signal.
    pub last_signal: u64,
    pub liveness: Liveness,
}

/// Time-units from `last_signal` to `now`; none if `now` is the earlier.
pub open spec fn silence(last_signal: int, now: int) -> int {
    if now >= last_signal {
        now - last_signal
    } else {
        0
    }
}

/// Whether a connection last heard of at `last_signal` has outlived the
/// liveness window at `now`.
pub open spec fn expired(last_signal: int, now: int) -> bool {
    silence(last_signal, now) > LIVENESS_WINDOW
}

/// The monitor after a liveness signal at `now`.
pub open spec fn signalled(m: HeartbeatMonitor, now: u64) -> HeartbeatMonitor {
    match m.liveness {
        Liveness::Alive => HeartbeatMonitor { last_signal: now, liveness: Liveness::Alive },
        _ => m,
    }
}

/// The monitor after a tick at `now`.
pub open spec fn ticked(m: HeartbeatMonitor, now: int) -> HeartbeatMonitor {
    if m.liveness == Liveness::Alive && expired(m.last_signal as int, now) {
        HeartbeatMonitor { last_signal: m.last_signal, liveness: Liveness::Closing }
    } else {
        m
    }
}

/// What a tick at `now` asks of the caller.
pub open spec fn tick_action(m: HeartbeatMonitor, now: int) -> MonitorAction {
    match m.liveness {
        Liveness::Alive => if expired(m.last_signal as int, now) {
            MonitorAction::Close
        } else {
            MonitorAction::Probe
        },
        _ => MonitorAction::Idle,
    }
}

/// The monitor once the close handshake is complete.
pub open spec fn terminated(m: HeartbeatMonitor) -> HeartbeatMonitor {
    HeartbeatMonitor { last_signal: m.last_signal, liveness: Liveness::Terminated }
}

impl HeartbeatMonitor {
    /// The monitor of a connection established at `now`.
    pub fn start(now: u64) -> (m: HeartbeatMonitor)
        ensures
            m == (HeartbeatMonitor { last_signal: now, liveness: Liveness::Alive }),
    {
        HeartbeatMonitor { last_signal: now, liveness: Liveness::Alive }
    }

    /// Time-units since the last liveness signal.
    pub fn silence(&self, now: u64) -> (elapsed: u64)
        ensures
            elapsed == silence(self.last_signal as int, now as int),
    {
        if now >= self.last_signal {
            now - self.last_signal
        } else {
            0
        }
    }

    /// Records a liveness signal seen at `now`. Signals of a connection that
    /// is already closing change nothing.
    pub fn signal(&mut self, now: u64)
        ensures
            *final(self) == signalled(*old(self), now),
    {
        match self.liveness {
            Liveness::Alive => {
                self.last_signal = now;
            },
            _ => {},
        }
    }

    /// One tick of the monitor at `now`.
    pub fn tick(&mut self, now: u64) -> (action: MonitorAction)
        ensures
            *final(self) == ticked(*old(self), now as int),
            action == tick_action(*old(self), now as int),
    {
        match self.liveness {
            Liveness::Alive => {
                if self.silence(now) > LIVENESS_WINDOW {
                    self.liveness = Liveness::Closing;
                    MonitorAction::Close
                } else {
                    MonitorAction::Probe
                }
            },
            _ => MonitorAction::Idle,
        }
    }

    /// Records that the close handshake is complete.
    pub fn terminate(&mut self)
        ensures
            *final(self) == terminated(*old(self)),
    {
        self.liveness = Liveness::Terminated;
    }
}

/// Time of the `n`-th tick of a monitor started at `start`.
pub open spec fn tick_time(start: int, n: nat) -> int {
    start + n * PROBE_CADENCE
}

/// The monitor after its first `n` ticks, when no liveness signal arrives in
/// between.
pub open spec fn after_ticks(m: HeartbeatMonitor, start: int, n: nat) -> HeartbeatMonitor
    decreases n,
{
    if n == 0 {
        m
    } else {
        ticked(after_ticks(m, start, (n - 1) as nat), tick_time(start, n))
    }
}

/// A silent connection is closed within window plus cadence, and not before
/// the window has run out.
///
/// Take an alive connection whose last liveness signal came at or after the
/// start of its monitor. While the ticks fall within the window after that
/// signal, the connection stays alive. From the first tick beyond the window
/// on it is closing, and that tick comes no later than window plus cadence
/// after the signal.
pub proof fn lemma_silent_connection_closes(m: HeartbeatMonitor, start: int, n: nat)
    requires
        m.liveness == Liveness::Alive,
        0 <= start <= m.last_signal,
    ensures
        tick_time(start, n) <= m.last_signal + LIVENESS_WINDOW ==> after_ticks(m, start, n)
            == m,
        tick_time(start, n) > m.last_signal + LIVENESS_WINDOW ==> after_ticks(m, start, n) == (
        HeartbeatMonitor { last_signal: m.last_signal, liveness: Liveness::Closing }),
        exists|k: nat|
            m.last_signal + LIVENESS_WINDOW < #[trigger] tick_time(start, k) <= m.last_signal
                + LIVENESS_WINDOW + PROBE_CADENCE,
    decreases n,
{
    if n > 0 {
        lemma_silent_connection_closes(m, start, (n - 1) as nat);
        assert(tick_time(start, (n - 1) as nat) < tick_time(start, n));
    }
    let k: nat = ((m.last_signal + LIVENESS_WINDOW - start) / (PROBE_CADENCE as int) + 1) as nat;
    assert(m.last_signal + LIVENESS_WINDOW < tick_time(start, k) <= m.last_signal
        + LIVENESS_WINDOW + PROBE_CADENCE);
}

} // verus!
