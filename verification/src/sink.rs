//! Connection handles: the sending half of a bounded queue, one per
//! connection.

use futures::channel::mpsc::{Receiver, Sender};
use vstd::prelude::*;

verus! {

/// Number of payloads a connection's queue buffers beyond the one slot that
/// its sender always has.
pub const QUEUE_BUFFER: usize = 100;

/// The sending half of a bounded `futures` channel. Opaque: the queue behind
/// it is shared with a consumer that drains it at its own pace.
#[verifier::external_type_specification]
#[verifier::external_body]
#[verifier::reject_recursive_types(T)]
pub struct ExSender<T>(Sender<T>);

/// The receiving half of a bounded `futures` channel; the library only hands
/// it to the task that serves the connection.
#[verifier::external_type_specification]
#[verifier::external_body]
#[verifier::reject_recursive_types(T)]
pub struct ExReceiver<T>(Receiver<T>);

/// The two kinds of live client endpoint.
#[derive(Clone, Copy, Debug, PartialEq, Eq, Structural)]
pub enum ConnectionKind {
    /// Bidirectional; runs the heartbeat protocol.
    Interactive,
    /// One-way stream out; has no heartbeat.
    PushOnly,
}

/// What became of one attempt to hand a payload to a connection.
#[derive(Clone, Copy, Debug, PartialEq, Eq, Structural)]
pub enum SendOutcome {
    /// The payload is in the connection's queue.
    Accepted,
    /// The queue is at capacity; the payload was not queued.
    Full,
    /// The consumer is gone or the queue was closed; the payload was not
    /// queued.
    Disconnected,
}

/// Creates a bounded channel of strings with `futures::channel::mpsc::channel`.
///
/// Trusted: the call panics only when `buffer` is not below its limit of a
/// quarter of the address space, which `requires` leaves out. Nothing is
/// claimed of the two halves.
#[verifier::external_body]
fn channel_pair(buffer: usize) -> (pair: (Sender<String>, Receiver<String>))
    requires
        buffer < usize::MAX / 4,
{
    futures::channel::mpsc::channel::<String>(buffer)
}

/// Hands a copy of `payload` to `Sender::try_send` and tells its three results
/// apart: queued, rejected because the sender is parked on a full queue,
/// rejected because the channel is closed.
///
/// Trusted: the result depends on the consumer, so nothing is claimed of it.
/// `try_send` never waits, and a rejected message is handed back, not
/// queued. Its one assertion, that the message count stays below half the
/// address space, cannot fail here: a parked sender is turned away before it
/// counts, so a queue holds at most its buffer and one message per sender.
#[verifier::external_body]
fn channel_try_send(tx: &mut Sender<String>, payload: &str) -> (outcome: SendOutcome) {
    match tx.try_send(payload.to_string()) {
        Ok(()) => SendOutcome::Accepted,
        Err(e) => if e.is_full() {
            SendOutcome::Full
        } else {
            SendOutcome::Disconnected
        },
    }
}

/// Closes the channel from the sending side with `Sender::close_channel`, so
/// that the consumer sees the end of its stream once it has drained the queue.
///
/// Trusted: nothing is claimed.
#[verifier::external_body]
fn channel_close(tx: &mut Sender<String>) {
    tx.close_channel()
}

/// An addressable sink that accepts a text payload and a close request.
///
/// Besides the sending half of the connection's queue, a handle keeps
/// whether it has been asked to close and, for proofs only, the list of the
/// payloads that the queue has taken from it.
pub struct ConnectionHandle {
    kind: ConnectionKind,
    tx: Sender<String>,
    closed: bool,
    taken: Ghost<Seq<Seq<char>>>,
}

/// Whether `after` is the handle `before` once an attempt to queue `payload`
/// ended in `outcome`: an accepted payload is taken, once; a rejected one is
/// not. A handle that has been asked to close takes nothing, and an attempt
/// neither closes a handle nor opens it again.
pub open spec fn offered(
    before: ConnectionHandle,
    after: ConnectionHandle,
    payload: Seq<char>,
    outcome: SendOutcome,
) -> bool {
    &&& after.spec_kind() == before.spec_kind()
    &&& after.spec_is_closed() == before.spec_is_closed()
    &&& before.spec_is_closed() ==> outcome == SendOutcome::Disconnected
    &&& after.taken() == if outcome == SendOutcome::Accepted {
        before.taken().push(payload)
    } else {
        before.taken()
    }
}

impl ConnectionHandle {
    /// The kind of connection this handle leads to.
    pub closed spec fn spec_kind(&self) -> ConnectionKind {
        self.kind
    }

    /// Whether the connection has been asked to close.
    pub closed spec fn spec_is_closed(&self) -> bool {
        self.closed
    }

    /// The payloads that the connection's queue has taken from this handle,
    /// oldest first.
    pub closed spec fn taken(&self) -> Seq<Seq<char>> {
        self.taken@
    }

    /// Opens the queue of a new connection and returns its two ends: the
    /// handle for the relay, the receiver for the task that serves the client.
    pub fn open(kind: ConnectionKind) -> (ends: (ConnectionHandle, Receiver<String>))
        ensures
            ends.0.spec_kind() == kind,
            !ends.0.spec_is_closed(),
            ends.0.taken() == Seq::<Seq<char>>::empty(),
    {
        let (tx, rx) = channel_pair(QUEUE_BUFFER);
        (ConnectionHandle { kind, tx, closed: false, taken: Ghost(Seq::empty()) }, rx)
    }

    /// The kind of connection this handle leads to.
    #[verifier::when_used_as_spec(spec_kind)]
    pub fn kind(&self) -> (kind: ConnectionKind)
        ensures
            kind == self.spec_kind(),
    {
        self.kind
    }

    /// Whether the connection has been asked to close.
    #[verifier::when_used_as_spec(spec_is_closed)]
    pub fn is_closed(&self) -> (closed: bool)
        ensures
            closed == self.spec_is_closed(),
    {
        self.closed
    }

    /// Attempts, without waiting, to queue `payload` for the connection. A
    /// handle that has been asked to close takes nothing and answers
    /// `Disconnected`. Whether the queue of an open handle takes the payload
    /// is up to the consumer.
    pub fn offer(&mut self, payload: &str) -> (outcome: SendOutcome)
        ensures
            offered(*old(self), *final(self), payload@, outcome),
    {
        if self.closed {
            return SendOutcome::Disconnected;
        }
        let outcome = channel_try_send(&mut self.tx, payload);
        proof {
            if outcome == SendOutcome::Accepted {
                self.taken@ = self.taken@.push(payload@);
            }
        }
        outcome
    }

    /// Asks the connection to close. From now on the handle takes no
    /// payload; what it has taken stays queued, and the consumer sees the end
    /// of its stream once it has drained the queue.
    pub fn close(&mut self)
        ensures
            final(self).spec_is_closed(),
            final(self).spec_kind() == old(self).spec_kind(),
            final(self).taken() == old(self).taken(),
    {
        self.closed = true;
        channel_close(&mut self.tx)
    }
}

} // verus!
