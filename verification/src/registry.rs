//! The session registry: who is currently listening.

use crate::ident::ConnectionId;
use crate::sink::{offered, ConnectionHandle, SendOutcome};
use std::collections::HashMap;
use vstd::prelude::*;
use vstd::std_specs::hash::spec_keys_iter;
use vstd::std_specs::iter::IteratorSpec;

verus! {

broadcast use vstd::std_specs::hash::group_hash_axioms;

/// Mapping from connection identifier to connection handle.
///
/// An entry exists while the connection is believed live. The registry holds
/// at most one handle per identifier.
pub struct SessionRegistry {
    entries: HashMap<u128, ConnectionHandle>,
}

impl View for SessionRegistry {
    type V = Map<u128, ConnectionHandle>;

    closed spec fn view(&self) -> Map<u128, ConnectionHandle> {
        self.entries@
    }
}

impl SessionRegistry {
    /// A registry without entries.
    pub fn new() -> (registry: SessionRegistry)
        ensures
            registry@ == Map::<u128, ConnectionHandle>::empty(),
    {
        SessionRegistry { entries: HashMap::new() }
    }

    /// A registry has finitely many entries.
    pub proof fn lemma_finite(self)
        ensures
            self@.dom().finite(),
    {
    }

    /// Inserts `handle` under `id` unconditionally and returns the handle that
    /// it displaced, if the identifier was in use.
    pub fn register(&mut self, id: ConnectionId, handle: ConnectionHandle) -> (displaced: Option<
        ConnectionHandle,
    >)
        ensures
            final(self)@ == applied(old(self)@, RegistryOp::Register(id, handle)),
            displaced == if old(self)@.contains_key(id.bits) {
                Some(old(self)@[id.bits])
            } else {
                None
            },
    {
        self.entries.insert(id.bits, handle)
    }

    /// Removes the entry of `id` if there is one, and returns its handle.
    pub fn unregister(&mut self, id: ConnectionId) -> (removed: Option<ConnectionHandle>)
        ensures
            final(self)@ == applied(old(self)@, RegistryOp::Unregister(id)),
            removed == if old(self)@.contains_key(id.bits) {
                Some(old(self)@[id.bits])
            } else {
                None
            },
    {
        self.entries.remove(&id.bits)
    }

    /// Removes the entry of `id` if there is one, and asks the connection to
    /// close.
    pub fn evict(&mut self, id: ConnectionId)
        ensures
            final(self)@ == applied(old(self)@, RegistryOp::Unregister(id)),
    {
        match self.unregister(id) {
            Some(handle) => {
                let mut handle = handle;
                handle.close();
            },
            None => {},
        }
    }

    /// Whether `id` has an entry.
    pub fn contains(&self, id: ConnectionId) -> (present: bool)
        ensures
            present == self@.contains_key(id.bits),
    {
        self.entries.contains_key(&id.bits)
    }

    /// Number of entries.
    pub fn len(&self) -> (n: usize)
        ensures
            n == self@.len(),
    {
        self.entries.len()
    }

    /// A point-in-time enumeration of the registered identifiers: each one
    /// once, in no particular order.
    pub fn snapshot(&self) -> (ids: Vec<ConnectionId>)
        ensures
            is_snapshot(ids@, self@),
    {
        let mut ids: Vec<ConnectionId> = Vec::new();
        for key in it: self.entries.keys()
            invariant
                ids@.len() == it.index(),
                forall|j: int| 0 <= j < ids@.len() ==> (#[trigger] ids@[j]).bits == *it.seq()[j],
        {
            ids.push(ConnectionId { bits: *key });
        }
        proof {
            let keys = spec_keys_iter(&self.entries).remaining().unref();
            assert(keys.len() == ids@.len());
            assert forall|j: int| 0 <= j < ids@.len() implies (#[trigger] ids@[j]).bits
                == keys[j] by {}
            assert forall|id: ConnectionId| ids@.contains(id) <==> self@.contains_key(
                id.bits,
            ) by {
                if ids@.contains(id) {
                    let j = choose|j: int| 0 <= j < ids@.len() && ids@[j] == id;
                    assert(keys[j] == id.bits);
                    assert(keys.to_set().contains(id.bits));
                }
                if self@.contains_key(id.bits) {
                    assert(keys.to_set().contains(id.bits));
                    let j = choose|j: int| 0 <= j < keys.len() && keys[j] == id.bits;
                    assert(ids@[j] == id);
                }
            }
        }
        ids
    }

    /// Attempts, without waiting, to queue `payload` for the connection that
    /// `id` names. Returns nothing when `id` has no entry. The set of entries
    /// stays as it was; only the handle of `id` may have changed.
    pub fn send_to(&mut self, id: ConnectionId, payload: &str) -> (outcome: Option<SendOutcome>)
        ensures
            final(self)@.dom() == old(self)@.dom(),
            forall|k: u128|
                k != id.bits && old(self)@.contains_key(k) ==> #[trigger] final(self)@[k] == old(
                    self,
                )@[k],
            match outcome {
                Some(outcome) => old(self)@.contains_key(id.bits) && offered(
                    old(self)@[id.bits],
                    final(self)@[id.bits],
                    payload@,
                    outcome,
                ),
                None => !old(self)@.contains_key(id.bits) && final(self)@ == old(self)@,
            },
    {
        match self.entries.remove(&id.bits) {
            Some(handle) => {
                let mut handle = handle;
                let outcome = handle.offer(payload);
                self.entries.insert(id.bits, handle);
                assert(self@.dom() =~= old(self)@.dom());
                Some(outcome)
            },
            None => {
                assert(self@ =~= old(self)@);
                None
            },
        }
    }

    /// Whether the registry has no entry.
    pub fn is_empty(&self) -> (empty: bool)
        ensures
            empty == (self@.len() == 0),
    {
        self.entries.len() == 0
    }
}

/// One call on the registry that changes it.
pub enum RegistryOp {
    Register(ConnectionId, ConnectionHandle),
    Unregister(ConnectionId),
}

/// The entries after `op`.
pub open spec fn applied(entries: Map<u128, ConnectionHandle>, op: RegistryOp) -> Map<
    u128,
    ConnectionHandle,
> {
    match op {
        RegistryOp::Register(id, handle) => entries.insert(id.bits, handle),
        RegistryOp::Unregister(id) => entries.remove(id.bits),
    }
}

/// The entries after the calls `ops`, made in order on `entries`.
pub open spec fn replayed(entries: Map<u128, ConnectionHandle>, ops: Seq<RegistryOp>) -> Map<
    u128,
    ConnectionHandle,
>
    decreases ops.len(),
{
    if ops.len() == 0 {
        entries
    } else {
        applied(replayed(entries, ops.drop_last()), ops.last())
    }
}

/// Whether the last of `ops` that names `id` registers it.
pub open spec fn registered_last(ops: Seq<RegistryOp>, id: ConnectionId) -> bool
    decreases ops.len(),
{
    if ops.len() == 0 {
        false
    } else {
        match ops.last() {
            RegistryOp::Register(named, _) => named == id || registered_last(ops.drop_last(), id),
            RegistryOp::Unregister(named) => named != id && registered_last(ops.drop_last(), id),
        }
    }
}

/// Whether `ids` is a snapshot of `entries`: every registered identifier
/// once, and no other.
pub open spec fn is_snapshot(ids: Seq<ConnectionId>, entries: Map<u128, ConnectionHandle>) -> bool {
    &&& ids.no_duplicates()
    &&& ids.len() == entries.len()
    &&& forall|id: ConnectionId| ids.contains(id) <==> entries.contains_key(id.bits)
}

/// Whatever calls were made on a new registry, a snapshot lists no
/// identifier twice, and it lists an identifier if and only if the last call
/// that named it was a `register`. So a snapshot taken after an `unregister`
/// does not list that identifier until it is registered again.
pub proof fn lemma_history(ops: Seq<RegistryOp>, ids: Seq<ConnectionId>, id: ConnectionId)
    requires
        is_snapshot(ids, replayed(Map::empty(), ops)),
    ensures
        ids.no_duplicates(),
        ids.contains(id) <==> registered_last(ops, id),
        ops.len() > 0 && ops.last() == RegistryOp::Unregister(id) ==> !ids.contains(id),
{
    lemma_replayed(ops, id);
}

proof fn lemma_replayed(ops: Seq<RegistryOp>, id: ConnectionId)
    ensures
        replayed(Map::empty(), ops).contains_key(id.bits) <==> registered_last(ops, id),
    decreases ops.len(),
{
    if ops.len() > 0 {
        lemma_replayed(ops.drop_last(), id);
    }
}

/// Unregistering is idempotent: a second `unregister` of the same identifier
/// changes nothing.
pub proof fn lemma_unregister_idempotent(entries: Map<u128, ConnectionHandle>, id: ConnectionId)
    ensures
        applied(applied(entries, RegistryOp::Unregister(id)), RegistryOp::Unregister(id))
            == applied(entries, RegistryOp::Unregister(id)),
{
    assert(entries.remove(id.bits).remove(id.bits) =~= entries.remove(id.bits));
}

} // verus!
