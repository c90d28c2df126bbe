//! Append-only trace store. Every lookup is defined over the log
//! itself: the most recent entry that decides the answer wins.

use vstd::prelude::*;
use crate::trace::entry::{TraceEntry, TracePayload, TraceSequence};
use crate::types::fact::{FactKey, same_key};
use crate::types::ids::{BehaviorId, EventId};

verus! {

/// Some key of `keys` names the same fact as `key`.
pub open spec fn keys_contain(keys: Seq<FactKey>, key: FactKey) -> bool {
    exists|i: int| 0 <= i < keys.len() && same_key(#[trigger] keys[i], key)
}

/// Index of the most recent `Event` entry carrying `id`.
pub open spec fn event_index(es: Seq<TraceEntry>, id: EventId) -> Option<int>
    decreases es.len(),
{
    if es.len() == 0 {
        None
    } else if es.last().payload matches TracePayload::Event { event } && event.id == id {
        Some(es.len() - 1)
    } else {
        event_index(es.drop_last(), id)
    }
}

/// Index of the most recent entry that asserted or retracted `key`.
pub open spec fn fact_touch_index(es: Seq<TraceEntry>, key: FactKey) -> Option<int>
    decreases es.len(),
{
    if es.len() == 0 {
        None
    } else if es.last().payload matches TracePayload::FactAsserted { fact } && same_key(fact.key, key) {
        Some(es.len() - 1)
    } else if es.last().payload matches TracePayload::FactRetracted { key: k, .. } && same_key(k, key) {
        Some(es.len() - 1)
    } else {
        fact_touch_index(es.drop_last(), key)
    }
}

/// Index of the entry that asserted `key`, if no later entry retracted it.
pub open spec fn fact_assert_index(es: Seq<TraceEntry>, key: FactKey) -> Option<int>
    decreases es.len(),
{
    if es.len() == 0 {
        None
    } else if es.last().payload matches TracePayload::FactAsserted { fact } && same_key(fact.key, key) {
        Some(es.len() - 1)
    } else if es.last().payload matches TracePayload::FactRetracted { key: k, .. } && same_key(k, key) {
        None
    } else {
        fact_assert_index(es.drop_last(), key)
    }
}

/// Triggering event and behavior of the most recent firing that asserted
/// `key`, unless a later firing or retraction took it back.
pub open spec fn asserting_behavior(es: Seq<TraceEntry>, key: FactKey) -> Option<(EventId, BehaviorId)>
    decreases es.len(),
{
    if es.len() == 0 {
        None
    } else {
        match es.last().payload {
            TracePayload::BehaviorFired { behavior, triggering_event, asserted, retracted, .. } => {
                if keys_contain(retracted@, key) {
                    None
                } else if keys_contain(asserted@, key) {
                    Some((triggering_event, behavior))
                } else {
                    asserting_behavior(es.drop_last(), key)
                }
            },
            TracePayload::FactRetracted { key: k, .. } => if same_key(k, key) {
                None
            } else {
                asserting_behavior(es.drop_last(), key)
            },
            _ => asserting_behavior(es.drop_last(), key),
        }
    }
}

/// The assert index points at a `FactAsserted` entry of the log for
/// that key.
pub proof fn lemma_fact_assert_index(es: Seq<TraceEntry>, key: FactKey)
    ensures
        fact_assert_index(es, key) matches Some(i) ==> (0 <= i < es.len()
            && (es[i].payload matches TracePayload::FactAsserted { fact } && same_key(fact.key, key))),
    decreases es.len(),
{
    if es.len() > 0 {
        lemma_fact_assert_index(es.drop_last(), key);
    }
}

/// The event index points at an `Event` entry carrying that id.
pub proof fn lemma_event_index(es: Seq<TraceEntry>, id: EventId)
    ensures
        event_index(es, id) matches Some(i) ==> (0 <= i < es.len()
            && (es[i].payload matches TracePayload::Event { event } && event.id == id)),
    decreases es.len(),
{
    if es.len() > 0 {
        lemma_event_index(es.drop_last(), id);
    }
}

/// `es[j]` is an `Event` entry carrying `id`.
pub open spec fn is_event_entry(e: TraceEntry, id: EventId) -> bool {
    e.payload matches TracePayload::Event { event } && event.id == id
}

/// Event lookup finds every recorded event: the lookup of `id` is the
/// position of the latest `Event` entry carrying `id`, and there is none
/// exactly when no entry carries it.
pub proof fn lemma_event_index_is_latest(es: Seq<TraceEntry>, id: EventId)
    ensures
        event_index(es, id) is None <==> forall|j: int| 0 <= j < es.len() ==> !is_event_entry(#[trigger] es[j], id),
        event_index(es, id) matches Some(i) ==> 0 <= i < es.len() && is_event_entry(es[i], id) && forall|j: int|
            i < j < es.len() ==> !is_event_entry(#[trigger] es[j], id),
    decreases es.len(),
{
    if es.len() > 0 {
        let t = es.drop_last();
        lemma_event_index_is_latest(t, id);
        assert forall|j: int| 0 <= j < t.len() implies #[trigger] t[j] == es[j] by {}
        if !is_event_entry(es.last(), id) {
            assert(event_index(es, id) == event_index(t, id));
            if event_index(es, id) is None {
                assert forall|j: int| 0 <= j < es.len() implies !is_event_entry(#[trigger] es[j], id) by {
                    if j < t.len() {
                        assert(t[j] == es[j]);
                    }
                }
            }
            if event_index(es, id) is Some {
                let i = event_index(es, id).unwrap();
                assert(es[i] == t[i]);
                assert forall|j: int| i < j < es.len() implies !is_event_entry(#[trigger] es[j], id) by {
                    if j < t.len() {
                        assert(t[j] == es[j]);
                    }
                }
            }
        } else {
            assert(event_index(es, id) == Some(es.len() - 1));
        }
    }
}

/// Appending never hides an event: after appending `x`, the lookup of
/// `id` is the new position when `x` is an event with that id, and
/// otherwise what it was before.
pub proof fn lemma_event_index_after_push(es: Seq<TraceEntry>, x: TraceEntry, id: EventId)
    ensures
        is_event_entry(x, id) ==> event_index(es.push(x), id) == Some(es.len() as int),
        !is_event_entry(x, id) ==> event_index(es.push(x), id) == event_index(es, id),
{
    let t = es.push(x);
    lemma_event_index_is_latest(t, id);
    lemma_event_index_is_latest(es, id);
    assert forall|j: int| 0 <= j < es.len() implies #[trigger] t[j] == es[j] by {}
    assert(t[es.len() as int] == x);
    if !is_event_entry(x, id) {
        match event_index(es, id) {
            Some(i) => {
                match event_index(t, id) {
                    Some(k) => {
                        if k < i {
                            assert(is_event_entry(t[i], id));
                        } else if k > i {
                            assert(k < es.len());
                            assert(is_event_entry(es[k], id));
                        }
                    },
                    None => {
                        assert(!is_event_entry(t[i], id));
                    },
                }
            },
            None => {
                match event_index(t, id) {
                    Some(k) => {
                        assert(k < es.len());
                        assert(is_event_entry(es[k], id));
                    },
                    None => {},
                }
            },
        }
    }
}

/// An appended event is found by its id, at the position it was
/// appended to.
pub proof fn lemma_event_found_after_append(es: Seq<TraceEntry>, entry: TraceEntry, event: crate::types::event::Event)
    requires
        entry.payload == (TracePayload::Event { event }),
    ensures
        event_index(es.push(entry), event.id) == Some(es.len() as int),
{
    assert(es.push(entry).last() == entry);
}

/// An appended assertion is the current assert entry of its key and
/// the latest entry touching it.
pub proof fn lemma_assert_found_after_append(es: Seq<TraceEntry>, entry: TraceEntry, fact: crate::types::fact::Fact)
    requires
        entry.payload == (TracePayload::FactAsserted { fact }),
    ensures
        fact_assert_index(es.push(entry), fact.key) == Some(es.len() as int),
        fact_touch_index(es.push(entry), fact.key) == Some(es.len() as int),
{
    assert(es.push(entry).last() == entry);
}

/// A retraction clears the inspection of its key: no assert entry and
/// no asserting behavior are left for it, while the retraction itself
/// is the latest entry touching the key.
pub proof fn lemma_retraction_clears_inspection(
    es: Seq<TraceEntry>,
    entry: TraceEntry,
    retracted: FactKey,
    provenance: crate::provenance::Provenance,
    key: FactKey,
)
    requires
        entry.payload == (TracePayload::FactRetracted { key: retracted, provenance }),
        same_key(retracted, key),
    ensures
        fact_assert_index(es.push(entry), key) is None,
        asserting_behavior(es.push(entry), key) is None,
        fact_touch_index(es.push(entry), key) == Some(es.len() as int),
{
    assert(es.push(entry).last() == entry);
}

/// Append-only trace log.
pub struct TraceStore {
    entries: Vec<TraceEntry>,
}

fn contains_key(keys: &Vec<FactKey>, key: &FactKey) -> (r: bool)
    ensures
        r == keys_contain(keys@, *key),
{
    let mut i: usize = 0;
    while i < keys.len()
        invariant
            i <= keys@.len(),
            forall|j: int| 0 <= j < i ==> !same_key(#[trigger] keys@[j], *key),
        decreases keys@.len() - i,
    {
        if keys[i].same_as(key) {
            return true;
        }
        i = i + 1;
    }
    false
}

impl TraceStore {
    /// The entries in append order.
    pub closed spec fn spec_entries(&self) -> Seq<TraceEntry> {
        self.entries@
    }

    /// The `i`-th entry carries sequence `i`.
    #[verifier::type_invariant]
    spec fn sequenced(&self) -> bool {
        forall|i: int| 0 <= i < self.entries@.len() ==> (#[trigger] self.entries@[i]).sequence.0 == i
    }

    pub fn new() -> (t: Self)
        ensures
            t.spec_entries().len() == 0,
    {
        TraceStore { entries: Vec::new() }
    }

    /// Append an entry; its sequence is the number of entries before it.
    pub fn append(&mut self, timestamp_ns: u64, payload: TracePayload) -> (seq: TraceSequence)
        ensures
            seq.0 == old(self).spec_entries().len(),
            final(self).spec_entries() == old(self).spec_entries().push(
                TraceEntry { sequence: seq, timestamp_ns, payload },
            ),
    {
        proof {
            use_type_invariant(&*self);
        }
        let seq = TraceSequence(self.entries.len() as u64);
        let mut es: Vec<TraceEntry> = Vec::new();
        std::mem::swap(&mut es, &mut self.entries);
        es.push(TraceEntry { sequence: seq, timestamp_ns, payload });
        self.entries = es;
        seq
    }

    /// The entry recorded at `seq`, if any.
    pub fn get(&self, seq: TraceSequence) -> (r: Option<&TraceEntry>)
        ensures
            r is Some <==> seq.0 < self.spec_entries().len(),
            r is Some ==> *r.unwrap() == self.spec_entries()[seq.0 as int],
            r is Some ==> r.unwrap().sequence == seq,
    {
        proof {
            use_type_invariant(self);
        }
        if seq.0 < self.entries.len() as u64 {
            Some(&self.entries[seq.0 as usize])
        } else {
            None
        }
    }

    /// Sequence of the most recent event with this id.
    pub fn find_event(&self, id: EventId) -> (r: Option<TraceSequence>)
        ensures
            match event_index(self.spec_entries(), id) {
                Some(i) => r matches Some(q) && q.0 == i,
                None => r is None,
            },
    {
        proof {
            use_type_invariant(self);
        }
        let ghost es = self.entries@;
        let mut i = self.entries.len();
        assert(es.subrange(0, i as int) =~= es);
        while i > 0
            invariant
                i <= es.len(),
                es == self.entries@,
                forall|j: int| 0 <= j < es.len() ==> (#[trigger] es[j]).sequence.0 == j,
                event_index(es, id) == event_index(es.subrange(0, i as int), id),
            decreases i,
        {
            let prefix = Ghost(es.subrange(0, i as int));
            assert(prefix@.drop_last() =~= es.subrange(0, i - 1));
            let e = &self.entries[i - 1];
            match &e.payload {
                TracePayload::Event { event } => {
                    if event.id.0 == id.0 {
                        return Some(e.sequence);
                    }
                },
                _ => {},
            }
            i = i - 1;
        }
        None
    }

    /// Most recent sequence that asserted or retracted `key`.
    pub fn find_fact(&self, key: &FactKey) -> (r: Option<TraceSequence>)
        ensures
            match fact_touch_index(self.spec_entries(), *key) {
                Some(i) => r matches Some(q) && q.0 == i,
                None => r is None,
            },
    {
        proof {
            use_type_invariant(self);
        }
        let ghost es = self.entries@;
        let mut i = self.entries.len();
        assert(es.subrange(0, i as int) =~= es);
        while i > 0
            invariant
                i <= es.len(),
                es == self.entries@,
                forall|j: int| 0 <= j < es.len() ==> (#[trigger] es[j]).sequence.0 == j,
                fact_touch_index(es, *key) == fact_touch_index(es.subrange(0, i as int), *key),
            decreases i,
        {
            let prefix = Ghost(es.subrange(0, i as int));
            assert(prefix@.drop_last() =~= es.subrange(0, i - 1));
            let e = &self.entries[i - 1];
            match &e.payload {
                TracePayload::FactAsserted { fact } => {
                    if fact.key.same_as(key) {
                        return Some(e.sequence);
                    }
                },
                TracePayload::FactRetracted { key: k, .. } => {
                    if k.same_as(key) {
                        return Some(e.sequence);
                    }
                },
                _ => {},
            }
            i = i - 1;
        }
        None
    }

    /// Sequence of the entry asserting `key`, if it is currently asserted.
    pub fn find_fact_assert(&self, key: &FactKey) -> (r: Option<TraceSequence>)
        ensures
            match fact_assert_index(self.spec_entries(), *key) {
                Some(i) => r matches Some(q) && q.0 == i,
                None => r is None,
            },
    {
        proof {
            use_type_invariant(self);
        }
        let ghost es = self.entries@;
        let mut i = self.entries.len();
        assert(es.subrange(0, i as int) =~= es);
        while i > 0
            invariant
                i <= es.len(),
                es == self.entries@,
                forall|j: int| 0 <= j < es.len() ==> (#[trigger] es[j]).sequence.0 == j,
                fact_assert_index(es, *key) == fact_assert_index(es.subrange(0, i as int), *key),
            decreases i,
        {
            let prefix = Ghost(es.subrange(0, i as int));
            assert(prefix@.drop_last() =~= es.subrange(0, i - 1));
            let e = &self.entries[i - 1];
            match &e.payload {
                TracePayload::FactAsserted { fact } => {
                    if fact.key.same_as(key) {
                        return Some(e.sequence);
                    }
                },
                TracePayload::FactRetracted { key: k, .. } => {
                    if k.same_as(key) {
                        return None;
                    }
                },
                _ => {},
            }
            i = i - 1;
        }
        None
    }

    fn asserting_behavior_of(&self, key: &FactKey) -> (r: Option<(EventId, BehaviorId)>)
        ensures
            r == asserting_behavior(self.spec_entries(), *key),
    {
        let ghost es = self.entries@;
        let mut i = self.entries.len();
        assert(es.subrange(0, i as int) =~= es);
        while i > 0
            invariant
                i <= es.len(),
                es == self.entries@,
                asserting_behavior(es, *key) == asserting_behavior(es.subrange(0, i as int), *key),
            decreases i,
        {
            let prefix = Ghost(es.subrange(0, i as int));
            assert(prefix@.drop_last() =~= es.subrange(0, i - 1));
            let e = &self.entries[i - 1];
            match &e.payload {
                TracePayload::BehaviorFired { behavior, triggering_event, asserted, retracted, .. } => {
                    if contains_key(retracted, key) {
                        return None;
                    }
                    if contains_key(asserted, key) {
                        return Some((*triggering_event, behavior.clone()));
                    }
                },
                TracePayload::FactRetracted { key: k, .. } => {
                    if k.same_as(key) {
                        return None;
                    }
                },
                _ => {},
            }
            i = i - 1;
        }
        None
    }

    /// For a fact currently asserted by a behavior firing: the triggering
    /// event, the behavior and the sequence of the assert entry.
    pub fn fact_inspection(&self, key: &FactKey) -> (r: Option<(EventId, BehaviorId, TraceSequence)>)
        ensures
            match (asserting_behavior(self.spec_entries(), *key), fact_assert_index(self.spec_entries(), *key)) {
                (Some((ev, b)), Some(i)) => r matches Some((ev2, b2, q)) && ev2 == ev && b2 == b && q.0 == i,
                _ => r is None,
            },
    {
        let fired = self.asserting_behavior_of(key);
        match fired {
            None => None,
            Some((event_id, behavior)) => match self.find_fact_assert(key) {
                None => None,
                Some(seq) => Some((event_id, behavior, seq)),
            },
        }
    }

    pub fn len(&self) -> (n: usize)
        ensures
            n == self.spec_entries().len(),
    {
        self.entries.len()
    }

    pub fn is_empty(&self) -> (b: bool)
        ensures
            b == (self.spec_entries().len() == 0),
    {
        self.entries.len() == 0
    }

    /// All entries in append order.
    pub fn entries(&self) -> (r: &[TraceEntry])
        ensures
            r@ == self.spec_entries(),
    {
        self.entries.as_slice()
    }
}

} // verus!
