//! The broadcast relay: one payload, every registered connection.
//!
//! A broadcast has two halves. The first attempts one send per entry of the
//! registry, without waiting, and records what became of each. The second
//! settles the record: it sorts the attempts into delivered, dropped and
//! evicted, and unregisters the evicted. There is no retry: a failed send is
//! taken as evidence of a dead connection. There is no deduplication either:
//! the relay keeps nothing of a payload once it has been offered.

use crate::ident::ConnectionId;
use crate::registry::SessionRegistry;
use crate::sink::{offered, ConnectionHandle, SendOutcome};
use vstd::prelude::*;

verus! {

/// What the relay does with a connection whose queue is full.
#[derive(Clone, Copy, Debug, PartialEq, Eq, Structural)]
pub enum OnFull {
    /// A connection that cannot keep up has failed: it is unregistered.
    Evict,
    /// The payload is dropped for that connection only; the connection stays.
    DropPayload,
}

/// One send attempt of a broadcast.
#[derive(Clone, Copy, Debug, PartialEq, Eq, Structural)]
pub struct Attempt {
    pub id: ConnectionId,
    pub outcome: SendOutcome,
}

/// The result of a broadcast, by identifier.
pub struct DeliveryReport {
    /// Connections that accepted the payload.
    pub delivered: Vec<ConnectionId>,
    /// Connections that stay registered although the payload was dropped for
    /// them.
    pub dropped: Vec<ConnectionId>,
    /// Connections that failed and were unregistered.
    pub evicted: Vec<ConnectionId>,
}

/// Whether the attempt queued the payload.
pub open spec fn is_delivered(attempt: Attempt) -> bool {
    attempt.outcome == SendOutcome::Accepted
}

/// Whether the attempt costs the connection its registration.
pub open spec fn is_evicted(on_full: OnFull, attempt: Attempt) -> bool {
    match attempt.outcome {
        SendOutcome::Accepted => false,
        SendOutcome::Full => on_full == OnFull::Evict,
        SendOutcome::Disconnected => true,
    }
}

/// Whether the attempt lost the payload but not the connection.
pub open spec fn is_dropped(on_full: OnFull, attempt: Attempt) -> bool {
    !is_delivered(attempt) && !is_evicted(on_full, attempt)
}

/// The identifiers of `attempts`, in order.
pub open spec fn ids_of(attempts: Seq<Attempt>) -> Seq<ConnectionId> {
    attempts.map_values(|a: Attempt| a.id)
}

/// The identifiers whose attempts queued the payload, in order.
pub open spec fn delivered_ids(attempts: Seq<Attempt>) -> Seq<ConnectionId> {
    ids_of(attempts.filter(|a: Attempt| is_delivered(a)))
}

/// The identifiers whose attempts lost the payload but not the connection.
pub open spec fn dropped_ids(on_full: OnFull, attempts: Seq<Attempt>) -> Seq<ConnectionId> {
    ids_of(attempts.filter(|a: Attempt| is_dropped(on_full, a)))
}

/// The identifiers whose attempts cost the connection its registration.
pub open spec fn evicted_ids(on_full: OnFull, attempts: Seq<Attempt>) -> Seq<ConnectionId> {
    ids_of(attempts.filter(|a: Attempt| is_evicted(on_full, a)))
}

/// The registry keys that `ids` name.
pub open spec fn key_set(ids: Seq<ConnectionId>) -> Set<u128> {
    Set::new(|k: u128| ids.contains(ConnectionId { bits: k }))
}

/// The test for being `id`.
pub open spec fn same_as(id: ConnectionId) -> spec_fn(ConnectionId) -> bool {
    |x: ConnectionId| x == id
}

/// How often `id` stands in `ids`.
pub open spec fn occurrences(ids: Seq<ConnectionId>, id: ConnectionId) -> nat {
    ids.filter(same_as(id)).len()
}

/// Whether `attempts` holds exactly one attempt for each key of `keys` and
/// none for any other.
pub open spec fn covers_once(attempts: Seq<Attempt>, keys: Set<u128>) -> bool {
    &&& ids_of(attempts).no_duplicates()
    &&& key_set(ids_of(attempts)) == keys
}

/// Whether `after` holds the entries of `before` once `payload` has been
/// offered to each of them as `attempts` records: to every entry once, with
/// no entry added or removed, and each handle changed by its own attempt
/// alone.
pub open spec fn attempted(
    before: Map<u128, ConnectionHandle>,
    after: Map<u128, ConnectionHandle>,
    payload: Seq<char>,
    attempts: Seq<Attempt>,
) -> bool {
    &&& after.dom() == before.dom()
    &&& covers_once(attempts, before.dom())
    &&& forall|i: int|
        0 <= i < attempts.len() ==> offered(
            before[(#[trigger] attempts[i]).id.bits],
            after[attempts[i].id.bits],
            payload,
            attempts[i].outcome,
        )
}

/// Whether every key of `keys` stands in exactly one of the three lists,
/// exactly once, and the lists hold nothing else.
pub open spec fn sorts_apart(
    delivered: Seq<ConnectionId>,
    dropped: Seq<ConnectionId>,
    evicted: Seq<ConnectionId>,
    keys: Set<u128>,
) -> bool {
    &&& delivered.no_duplicates()
    &&& dropped.no_duplicates()
    &&& evicted.no_duplicates()
    &&& key_set(delivered).disjoint(key_set(dropped))
    &&& key_set(delivered).disjoint(key_set(evicted))
    &&& key_set(dropped).disjoint(key_set(evicted))
    &&& key_set(delivered).union(key_set(dropped)).union(key_set(evicted)) == keys
}

/// Whether `after` holds the entries of `before` once `payload` has been
/// relayed to them with the given result. Every entry stands in exactly one
/// of the three lists. The delivered ones have taken the payload, once, and
/// stay. The dropped ones have not taken it, and stay. The evicted ones are
/// gone. Nothing else has changed.
pub open spec fn relayed(
    before: Map<u128, ConnectionHandle>,
    after: Map<u128, ConnectionHandle>,
    payload: Seq<char>,
    delivered: Seq<ConnectionId>,
    dropped: Seq<ConnectionId>,
    evicted: Seq<ConnectionId>,
) -> bool {
    &&& sorts_apart(delivered, dropped, evicted, before.dom())
    &&& after.dom() == key_set(delivered).union(key_set(dropped))
    &&& after.len() == before.len() - evicted.len()
    &&& forall|id: ConnectionId| #[trigger]
        delivered.contains(id) ==> offered(
            before[id.bits],
            after[id.bits],
            payload,
            SendOutcome::Accepted,
        )
    &&& forall|id: ConnectionId| #[trigger]
        dropped.contains(id) ==> offered(
            before[id.bits],
            after[id.bits],
            payload,
            SendOutcome::Full,
        )
}

impl DeliveryReport {
    /// Whether this is the report of relaying `payload` to the entries
    /// `before`, which left the entries `after`.
    pub open spec fn records(
        &self,
        before: Map<u128, ConnectionHandle>,
        after: Map<u128, ConnectionHandle>,
        payload: Seq<char>,
    ) -> bool {
        relayed(before, after, payload, self.delivered@, self.dropped@, self.evicted@)
    }
}

/// Attempts one send of `payload` to every entry of the registry, without
/// waiting, and records what became of each. No entry is added or removed.
pub fn attempt_all(registry: &mut SessionRegistry, payload: &str) -> (attempts: Vec<Attempt>)
    ensures
        attempted(old(registry)@, final(registry)@, payload@, attempts@),
{
    let ids = registry.snapshot();
    let mut attempts: Vec<Attempt> = Vec::new();
    let mut i: usize = 0;
    while i < ids.len()
        invariant
            i <= ids.len(),
            ids@.no_duplicates(),
            registry@.dom() == old(registry)@.dom(),
            forall|id: ConnectionId| ids@.contains(id) <==> old(registry)@.contains_key(id.bits),
            ids_of(attempts@) == ids@.take(i as int),
            forall|j: int|
                0 <= j < attempts@.len() ==> offered(
                    old(registry)@[(#[trigger] attempts@[j]).id.bits],
                    registry@[attempts@[j].id.bits],
                    payload@,
                    attempts@[j].outcome,
                ),
            forall|j: int|
                i <= j < ids@.len() ==> registry@[(#[trigger] ids@[j]).bits] == old(
                    registry,
                )@[ids@[j].bits],
        decreases ids.len() - i,
    {
        let id = ids[i];
        let ghost earlier = attempts@;
        let ghost entries = registry@;
        assert(ids@.contains(id));
        let sent = registry.send_to(id, payload);
        assert(sent is Some);
        if let Some(outcome) = sent {
            attempts.push(Attempt { id, outcome });
        }
        proof {
            assert(ids_of(attempts@) =~= ids_of(earlier).push(id));
            assert(ids@.take(i + 1) =~= ids@.take(i as int).push(id));
            assert forall|j: int| 0 <= j < attempts@.len() implies offered(
                old(registry)@[(#[trigger] attempts@[j]).id.bits],
                registry@[attempts@[j].id.bits],
                payload@,
                attempts@[j].outcome,
            ) by {
                if j < earlier.len() {
                    assert(attempts@[j] == earlier[j]);
                    assert(ids_of(earlier)[j] == earlier[j].id);
                    assert(ids@[j] == earlier[j].id);
                    assert(ids@[j] != ids@[i as int]);
                    assert(ids@.contains(ids@[j]));
                    assert(old(registry)@.contains_key(earlier[j].id.bits));
                    assert(registry@[earlier[j].id.bits] == entries[earlier[j].id.bits]);
                } else {
                    assert(entries[id.bits] == old(registry)@[id.bits]);
                }
            }
            assert forall|j: int| i + 1 <= j < ids@.len() implies registry@[(#[trigger] ids@[j]).bits]
                == old(registry)@[ids@[j].bits] by {
                assert(ids@[j] != ids@[i as int]);
                assert(ids@.contains(ids@[j]));
                assert(registry@[ids@[j].bits] == entries[ids@[j].bits]);
            }
        }
        i = i + 1;
    }
    proof {
        assert(ids@.take(ids@.len() as int) =~= ids@);
        assert(key_set(ids@) =~= old(registry)@.dom());
    }
    attempts
}

/// Settles a broadcast: sorts `attempts` into delivered, dropped and evicted,
/// each in the order of the attempts, and unregisters and closes every
/// evicted connection. Entries that no attempt evicts are left as they are.
pub fn settle(registry: &mut SessionRegistry, attempts: &Vec<Attempt>, on_full: OnFull) -> (report:
    DeliveryReport)
    ensures
        report.delivered@ == delivered_ids(attempts@),
        report.dropped@ == dropped_ids(on_full, attempts@),
        report.evicted@ == evicted_ids(on_full, attempts@),
        final(registry)@ == old(registry)@.remove_keys(key_set(evicted_ids(on_full, attempts@))),
{
    let mut delivered: Vec<ConnectionId> = Vec::new();
    let mut dropped: Vec<ConnectionId> = Vec::new();
    let mut evicted: Vec<ConnectionId> = Vec::new();
    proof {
        reveal(Seq::filter);
        assert(attempts@.take(0) =~= Seq::<Attempt>::empty());
        assert(delivered_ids(attempts@.take(0)) =~= Seq::<ConnectionId>::empty());
        assert(dropped_ids(on_full, attempts@.take(0)) =~= Seq::<ConnectionId>::empty());
        assert(evicted_ids(on_full, attempts@.take(0)) =~= Seq::<ConnectionId>::empty());
        assert(registry@ =~= registry@.remove_keys(key_set(Seq::<ConnectionId>::empty())));
    }
    let mut i: usize = 0;
    while i < attempts.len()
        invariant
            i <= attempts.len(),
            delivered@ == delivered_ids(attempts@.take(i as int)),
            dropped@ == dropped_ids(on_full, attempts@.take(i as int)),
            evicted@ == evicted_ids(on_full, attempts@.take(i as int)),
            registry@ == old(registry)@.remove_keys(key_set(evicted@)),
        decreases attempts.len() - i,
    {
        let attempt = attempts[i];
        proof {
            assert(attempts@.take(i + 1) =~= attempts@.take(i as int).push(attempt));
            lemma_sorted_push(on_full, attempts@.take(i as int), attempt);
            lemma_key_set_push(evicted@, attempt.id);
        }
        match attempt.outcome {
            SendOutcome::Accepted => {
                delivered.push(attempt.id);
            },
            SendOutcome::Full => {
                match on_full {
                    OnFull::Evict => {
                        registry.evict(attempt.id);
                        evicted.push(attempt.id);
                    },
                    OnFull::DropPayload => {
                        dropped.push(attempt.id);
                    },
                }
            },
            SendOutcome::Disconnected => {
                registry.evict(attempt.id);
                evicted.push(attempt.id);
            },
        }
        proof {
            if is_evicted(on_full, attempt) {
                assert(registry@ =~= old(registry)@.remove_keys(key_set(evicted@)));
            }
        }
        i = i + 1;
    }
    proof {
        assert(attempts@.take(attempts@.len() as int) =~= attempts@);
    }
    DeliveryReport { delivered, dropped, evicted }
}

/// Delivers `payload` to every entry of the registry, best effort and at most
/// once each, and unregisters the entries whose delivery failed.
pub fn deliver_all(registry: &mut SessionRegistry, payload: &str, on_full: OnFull) -> (report:
    DeliveryReport)
    ensures
        report.records(old(registry)@, final(registry)@, payload@),
        on_full == OnFull::Evict ==> report.dropped@.len() == 0,
{
    let attempts = attempt_all(registry, payload);
    let ghost offered_to = registry@;
    let report = settle(registry, &attempts, on_full);
    proof {
        old(registry).lemma_finite();
        lemma_accounting(old(registry)@, offered_to, payload@, attempts@, on_full);
    }
    report
}

/// Broadcasts `payload` to every registered connection. A connection that
/// does not take it at once, because its queue is full or its consumer is
/// gone, has failed and is unregistered; no failure reaches the caller.
///
/// Of N registered connections of which K fail, N - K remain: exactly those
/// that are reported as delivered, each of which has taken the payload once.
pub fn broadcast(registry: &mut SessionRegistry, payload: &str) -> (report: DeliveryReport)
    ensures
        report.records(old(registry)@, final(registry)@, payload@),
        report.dropped@.len() == 0,
        final(registry)@.dom() == key_set(report.delivered@),
        final(registry)@.len() == old(registry)@.len() - report.evicted@.len(),
        report.delivered@.len() == final(registry)@.len(),
{
    let report = deliver_all(registry, payload, OnFull::Evict);
    proof {
        assert(key_set(report.dropped@) =~= Set::<u128>::empty());
        assert(key_set(report.delivered@).union(key_set(report.dropped@)) =~= key_set(
            report.delivered@,
        ));
        lemma_key_set_len(report.delivered@);
    }
    report
}

/// The accounting of a broadcast. Where `payload` was offered once to each of
/// N entries and K of the attempts evict, settling leaves N - K entries:
/// those that took the payload, each listed once as delivered and each with
/// the payload taken once, and those for which it was dropped. Under
/// `OnFull::Evict` nothing is dropped, so the N - K entries that remain are
/// exactly the delivered ones.
pub proof fn lemma_accounting(
    before: Map<u128, ConnectionHandle>,
    offered_to: Map<u128, ConnectionHandle>,
    payload: Seq<char>,
    attempts: Seq<Attempt>,
    on_full: OnFull,
)
    requires
        before.dom().finite(),
        attempted(before, offered_to, payload, attempts),
    ensures
        ({
            let delivered = delivered_ids(attempts);
            let dropped = dropped_ids(on_full, attempts);
            let evicted = evicted_ids(on_full, attempts);
            let after = offered_to.remove_keys(key_set(evicted));
            &&& relayed(before, after, payload, delivered, dropped, evicted)
            &&& delivered.len() + dropped.len() == after.len()
            &&& on_full == OnFull::Evict ==> {
                &&& dropped.len() == 0
                &&& after.dom() == key_set(delivered)
                &&& delivered.len() == before.len() - evicted.len()
            }
        }),
{
    let delivered = delivered_ids(attempts);
    let dropped = dropped_ids(on_full, attempts);
    let evicted = evicted_ids(on_full, attempts);
    let after = offered_to.remove_keys(key_set(evicted));
    let ids = ids_of(attempts);
    lemma_fates(on_full, attempts);
    lemma_key_set_len(ids);
    lemma_key_set_len(delivered);
    lemma_key_set_len(dropped);
    lemma_key_set_len(evicted);
    assert forall|id: ConnectionId| #[trigger] ids.contains(id) implies exists|i: int|
        0 <= i < attempts.len() && (#[trigger] attempts[i]).id == id by {
        let i = choose|i: int| 0 <= i < ids.len() && ids[i] == id;
        assert(attempts[i].id == id);
    }
    assert(key_set(delivered).disjoint(key_set(dropped))) by {
        assert forall|k: u128| key_set(delivered).contains(k) implies !key_set(dropped).contains(
            k,
        ) by {
            assert(ids.contains(ConnectionId { bits: k }));
        }
    }
    assert(key_set(delivered).disjoint(key_set(evicted))) by {
        assert forall|k: u128| key_set(delivered).contains(k) implies !key_set(evicted).contains(
            k,
        ) by {
            assert(ids.contains(ConnectionId { bits: k }));
        }
    }
    assert(key_set(dropped).disjoint(key_set(evicted))) by {
        assert forall|k: u128| key_set(dropped).contains(k) implies !key_set(evicted).contains(
            k,
        ) by {
            assert(ids.contains(ConnectionId { bits: k }));
        }
    }
    assert(key_set(delivered).union(key_set(dropped)).union(key_set(evicted)) =~= before.dom())
        by {
        assert forall|k: u128| #[trigger] before.dom().contains(k) implies key_set(
            delivered,
        ).contains(k) || key_set(dropped).contains(k) || key_set(evicted).contains(k) by {
            let c = ConnectionId { bits: k };
            assert(key_set(ids).contains(k));
            assert(ids.contains(c));
            let i = choose|i: int| 0 <= i < attempts.len() && (#[trigger] attempts[i]).id == c;
            assert(is_delivered(attempts[i]) || is_dropped(on_full, attempts[i]) || is_evicted(
                on_full,
                attempts[i],
            ));
        }
    }
    assert(after.dom() =~= key_set(delivered).union(key_set(dropped)));
    vstd::set_lib::lemma_set_disjoint_lens(key_set(delivered), key_set(dropped));
    vstd::set_lib::lemma_set_disjoint_lens(
        key_set(delivered).union(key_set(dropped)),
        key_set(evicted),
    );
    assert forall|id: ConnectionId| #[trigger] delivered.contains(id) implies offered(
        before[id.bits],
        after[id.bits],
        payload,
        SendOutcome::Accepted,
    ) by {
        assert(ids.contains(id));
        let i = choose|i: int| 0 <= i < attempts.len() && (#[trigger] attempts[i]).id == id;
        assert(is_delivered(attempts[i]));
        assert(!key_set(evicted).contains(id.bits));
    }
    assert forall|id: ConnectionId| #[trigger] dropped.contains(id) implies offered(
        before[id.bits],
        after[id.bits],
        payload,
        SendOutcome::Full,
    ) by {
        assert(ids.contains(id));
        let i = choose|i: int| 0 <= i < attempts.len() && (#[trigger] attempts[i]).id == id;
        assert(is_dropped(on_full, attempts[i]));
        assert(!key_set(evicted).contains(id.bits));
    }
    if on_full == OnFull::Evict {
        if dropped.len() > 0 {
            let c = dropped[0];
            assert(dropped.contains(c));
            assert(ids.contains(c));
            let i = choose|i: int| 0 <= i < attempts.len() && (#[trigger] attempts[i]).id == c;
            assert(is_dropped(on_full, attempts[i]));
        }
        assert(key_set(dropped) =~= Set::<u128>::empty());
        assert(after.dom() =~= key_set(delivered));
    }
}

/// The relay does not deduplicate. Take two broadcasts of one payload, one
/// after the other, and a registered connection that accepts whatever it is
/// sent. The connection is delivered to once by each broadcast, is still
/// registered after both, and has then taken the payload twice.
pub proof fn lemma_no_deduplication(
    before: Map<u128, ConnectionHandle>,
    first_offered: Map<u128, ConnectionHandle>,
    first: Seq<Attempt>,
    second_offered: Map<u128, ConnectionHandle>,
    second: Seq<Attempt>,
    payload: Seq<char>,
    id: ConnectionId,
)
    requires
        before.dom().finite(),
        before.contains_key(id.bits),
        attempted(before, first_offered, payload, first),
        attempted(
            first_offered.remove_keys(key_set(evicted_ids(OnFull::Evict, first))),
            second_offered,
            payload,
            second,
        ),
        forall|i: int| 0 <= i < first.len() && first[i].id == id ==> is_delivered(first[i]),
        forall|i: int| 0 <= i < second.len() && second[i].id == id ==> is_delivered(second[i]),
    ensures
        occurrences(delivered_ids(first), id) == 1,
        occurrences(delivered_ids(second), id) == 1,
        ({
            let after = second_offered.remove_keys(key_set(evicted_ids(OnFull::Evict, second)));
            &&& after.contains_key(id.bits)
            &&& after[id.bits].taken() == before[id.bits].taken().push(payload).push(payload)
        }),
{
    let between = first_offered.remove_keys(key_set(evicted_ids(OnFull::Evict, first)));
    lemma_fates(OnFull::Evict, first);
    lemma_fates(OnFull::Evict, second);
    lemma_occurs_once(delivered_ids(first), id);
    lemma_occurs_once(delivered_ids(second), id);
    assert(key_set(ids_of(first)).contains(id.bits));
    let i = choose|i: int| 0 <= i < ids_of(first).len() && ids_of(first)[i] == id;
    assert(first[i].id == id);
    assert(is_delivered(first[i]));
    assert(!evicted_ids(OnFull::Evict, first).contains(id));
    assert(between.contains_key(id.bits));
    assert(key_set(ids_of(second)).contains(id.bits));
    let j = choose|j: int| 0 <= j < ids_of(second).len() && ids_of(second)[j] == id;
    assert(second[j].id == id);
    assert(is_delivered(second[j]));
    assert(!evicted_ids(OnFull::Evict, second).contains(id));
}

/// Where no connection is attempted twice, every attempt decides the fate of
/// its own connection and of no other: the three lists hold no identifier
/// twice, together they hold as many as there are attempts, and a connection
/// stands in the list that its own outcome names.
pub proof fn lemma_fates(on_full: OnFull, attempts: Seq<Attempt>)
    requires
        ids_of(attempts).no_duplicates(),
    ensures
        delivered_ids(attempts).no_duplicates(),
        dropped_ids(on_full, attempts).no_duplicates(),
        evicted_ids(on_full, attempts).no_duplicates(),
        delivered_ids(attempts).len() + dropped_ids(on_full, attempts).len() + evicted_ids(
            on_full,
            attempts,
        ).len() == attempts.len(),
        forall|id: ConnectionId|
            delivered_ids(attempts).contains(id) || dropped_ids(on_full, attempts).contains(id)
                || evicted_ids(on_full, attempts).contains(id) ==> ids_of(attempts).contains(id),
        forall|i: int|
            0 <= i < attempts.len() ==> {
                let a = #[trigger] attempts[i];
                &&& is_delivered(a) <==> delivered_ids(attempts).contains(a.id)
                &&& is_dropped(on_full, a) <==> dropped_ids(on_full, attempts).contains(a.id)
                &&& is_evicted(on_full, a) <==> evicted_ids(on_full, attempts).contains(a.id)
            },
    decreases attempts.len(),
{
    if attempts.len() == 0 {
        reveal(Seq::filter);
        assert(delivered_ids(attempts) =~= Seq::<ConnectionId>::empty());
        assert(dropped_ids(on_full, attempts) =~= Seq::<ConnectionId>::empty());
        assert(evicted_ids(on_full, attempts) =~= Seq::<ConnectionId>::empty());
    } else {
        let front = attempts.drop_last();
        let next = attempts.last();
        assert(attempts =~= front.push(next));
        assert(ids_of(front) =~= ids_of(attempts).drop_last());
        assert(ids_of(attempts).last() == next.id);
        assert(!ids_of(front).contains(next.id)) by {
            if ids_of(front).contains(next.id) {
                let j = choose|j: int| 0 <= j < front.len() && ids_of(front)[j] == next.id;
                assert(ids_of(attempts)[j] == ids_of(attempts)[attempts.len() - 1]);
            }
        }
        lemma_fates(on_full, front);
        lemma_sorted_push(on_full, front, next);
        let delivered_before = delivered_ids(front);
        let dropped_before = dropped_ids(on_full, front);
        let evicted_before = evicted_ids(on_full, front);
        let delivered = delivered_ids(attempts);
        let dropped = dropped_ids(on_full, attempts);
        let evicted = evicted_ids(on_full, attempts);
        assert forall|id: ConnectionId|
            delivered.contains(id) || dropped.contains(id) || evicted.contains(id) implies ids_of(attempts).contains(
            id,
        ) by {
            if id == next.id {
                assert(ids_of(attempts)[attempts.len() - 1] == id);
            } else {
                lemma_push_contains(delivered_before, next.id, id);
                lemma_push_contains(dropped_before, next.id, id);
                lemma_push_contains(evicted_before, next.id, id);
                assert(ids_of(front).contains(id));
                let j = choose|j: int| 0 <= j < front.len() && ids_of(front)[j] == id;
                assert(ids_of(attempts)[j] == id);
            }
        }
        assert forall|i: int| 0 <= i < attempts.len() implies {
            let a = #[trigger] attempts[i];
            &&& is_delivered(a) <==> delivered.contains(a.id)
            &&& is_dropped(on_full, a) <==> dropped.contains(a.id)
            &&& is_evicted(on_full, a) <==> evicted.contains(a.id)
        } by {
            let a = attempts[i];
            lemma_push_contains(delivered_before, next.id, a.id);
            lemma_push_contains(dropped_before, next.id, a.id);
            lemma_push_contains(evicted_before, next.id, a.id);
            if i < front.len() {
                assert(front[i] == a);
                assert(ids_of(front)[i] == a.id);
                assert(a.id != next.id);
            } else {
                assert(a == next);
            }
        }
    }
}

proof fn lemma_sorted_push(on_full: OnFull, attempts: Seq<Attempt>, next: Attempt)
    ensures
        delivered_ids(attempts.push(next)) == if is_delivered(next) {
            delivered_ids(attempts).push(next.id)
        } else {
            delivered_ids(attempts)
        },
        dropped_ids(on_full, attempts.push(next)) == if is_dropped(on_full, next) {
            dropped_ids(on_full, attempts).push(next.id)
        } else {
            dropped_ids(on_full, attempts)
        },
        evicted_ids(on_full, attempts.push(next)) == if is_evicted(on_full, next) {
            evicted_ids(on_full, attempts).push(next.id)
        } else {
            evicted_ids(on_full, attempts)
        },
{
    let id_of = |a: Attempt| a.id;
    let took = |a: Attempt| is_delivered(a);
    let lost = |a: Attempt| is_dropped(on_full, a);
    let failed = |a: Attempt| is_evicted(on_full, a);
    attempts.lemma_filter_push(next, took);
    attempts.lemma_filter_push(next, lost);
    attempts.lemma_filter_push(next, failed);
    assert(attempts.filter(took).push(next).map_values(id_of) =~= attempts.filter(took).map_values(
        id_of,
    ).push(next.id));
    assert(attempts.filter(lost).push(next).map_values(id_of) =~= attempts.filter(lost).map_values(
        id_of,
    ).push(next.id));
    assert(attempts.filter(failed).push(next).map_values(id_of) =~= attempts.filter(failed).map_values(
        id_of,
    ).push(next.id));
}

proof fn lemma_push_contains(ids: Seq<ConnectionId>, last: ConnectionId, id: ConnectionId)
    ensures
        ids.push(last).contains(id) <==> ids.contains(id) || id == last,
{
    if ids.push(last).contains(id) {
        let j = choose|j: int| 0 <= j < ids.push(last).len() && ids.push(last)[j] == id;
        if j < ids.len() {
            assert(ids[j] == id);
        }
    }
    if ids.contains(id) {
        let j = choose|j: int| 0 <= j < ids.len() && ids[j] == id;
        assert(ids.push(last)[j] == id);
    }
    if id == last {
        assert(ids.push(last)[ids.len() as int] == id);
    }
}

proof fn lemma_key_set_push(ids: Seq<ConnectionId>, id: ConnectionId)
    ensures
        key_set(ids.push(id)) == key_set(ids).insert(id.bits),
{
    assert forall|k: u128| key_set(ids.push(id)).contains(k) <==> key_set(ids).insert(
        id.bits,
    ).contains(k) by {
        lemma_push_contains(ids, id, ConnectionId { bits: k });
    }
    assert(key_set(ids.push(id)) =~= key_set(ids).insert(id.bits));
}

proof fn lemma_key_set_len(ids: Seq<ConnectionId>)
    requires
        ids.no_duplicates(),
    ensures
        key_set(ids).finite(),
        key_set(ids).len() == ids.len(),
    decreases ids.len(),
{
    if ids.len() == 0 {
        assert(key_set(ids) =~= Set::<u128>::empty());
    } else {
        let front = ids.drop_last();
        let id = ids.last();
        assert(ids =~= front.push(id));
        lemma_key_set_len(front);
        lemma_key_set_push(front, id);
        if key_set(front).contains(id.bits) {
            let j = choose|j: int| 0 <= j < front.len() && front[j] == id;
            assert(ids[j] == ids[ids.len() - 1]);
        }
    }
}

proof fn lemma_occurs_once(ids: Seq<ConnectionId>, id: ConnectionId)
    requires
        ids.no_duplicates(),
    ensures
        occurrences(ids, id) == if ids.contains(id) {
            1nat
        } else {
            0nat
        },
    decreases ids.len(),
{
    let same = same_as(id);
    if ids.len() == 0 {
        reveal(Seq::filter);
    } else {
        let front = ids.drop_last();
        let last = ids.last();
        assert(ids =~= front.push(last));
        lemma_occurs_once(front, id);
        front.lemma_filter_push(last, same);
        lemma_push_contains(front, last, id);
        if front.contains(id) && last == id {
            let j = choose|j: int| 0 <= j < front.len() && front[j] == id;
            assert(ids[j] == ids[ids.len() - 1]);
        }
    }
}

} // verus!
