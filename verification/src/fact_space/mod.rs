//! The fact space: the currently asserted facts, at most one per key,
//! and the notifications sent to subscribers when they change.

pub mod in_memory;

use vstd::prelude::*;
use crate::provenance::Provenance;
use crate::types::fact::{Fact, FactKey, same_key};
use crate::types::message::SubscribePattern;

pub use in_memory::InMemoryFactStore;

verus! {

/// The identity of a fact key in the model: entity and attribute text.
pub type KeyView = (u64, Seq<char>);

pub open spec fn key_view(k: FactKey) -> KeyView {
    (k.entity.0, k.attribute@)
}

/// No two facts of `fs` share a key.
pub open spec fn keys_unique(fs: Seq<Fact>) -> bool {
    forall|i: int, j: int| 0 <= i < fs.len() && 0 <= j < fs.len() && i != j
        ==> key_view(#[trigger] fs[i].key) != key_view(#[trigger] fs[j].key)
}

/// Some fact of `fs` has key `k`.
pub open spec fn has_key(fs: Seq<Fact>, k: KeyView) -> bool {
    exists|i: int| 0 <= i < fs.len() && key_view(#[trigger] fs[i].key) == k
}

/// The facts of `fs` as a map from key to fact.
pub open spec fn facts_map(fs: Seq<Fact>) -> Map<KeyView, Fact> {
    Map::new(
        |k: KeyView| has_key(fs, k),
        |k: KeyView| fs[choose|i: int| 0 <= i < fs.len() && key_view(#[trigger] fs[i].key) == k],
    )
}

/// With unique keys, the map sends each fact's key to that fact.
pub proof fn lemma_facts_map_at(fs: Seq<Fact>, i: int)
    requires
        keys_unique(fs),
        0 <= i < fs.len(),
    ensures
        facts_map(fs).contains_key(key_view(fs[i].key)),
        facts_map(fs)[key_view(fs[i].key)] == fs[i],
{
    let k = key_view(fs[i].key);
    assert(has_key(fs, k));
    let c = choose|j: int| 0 <= j < fs.len() && key_view(#[trigger] fs[j].key) == k;
    assert(c == i);
}

/// Replacing the fact at `i` by one with the same key updates the map
/// at that key.
pub proof fn lemma_facts_map_update(fs: Seq<Fact>, i: int, f: Fact)
    requires
        keys_unique(fs),
        0 <= i < fs.len(),
        key_view(f.key) == key_view(fs[i].key),
    ensures
        keys_unique(fs.update(i, f)),
        facts_map(fs.update(i, f)) == facts_map(fs).insert(key_view(f.key), f),
{
    let gs = fs.update(i, f);
    assert(keys_unique(gs)) by {
        assert forall|a: int, b: int| 0 <= a < gs.len() && 0 <= b < gs.len() && a != b
            implies key_view(#[trigger] gs[a].key) != key_view(#[trigger] gs[b].key) by {
            assert(key_view(gs[a].key) == key_view(fs[a].key));
            assert(key_view(gs[b].key) == key_view(fs[b].key));
        }
    }
    let m1 = facts_map(gs);
    let m2 = facts_map(fs).insert(key_view(f.key), f);
    assert forall|k: KeyView| m1.contains_key(k) <==> m2.contains_key(k) by {
        if has_key(gs, k) {
            let j = choose|j: int| 0 <= j < gs.len() && key_view(#[trigger] gs[j].key) == k;
            assert(key_view(fs[j].key) == k);
        }
        if has_key(fs, k) {
            let j = choose|j: int| 0 <= j < fs.len() && key_view(#[trigger] fs[j].key) == k;
            assert(key_view(gs[j].key) == k);
        }
        if k == key_view(f.key) {
            assert(key_view(gs[i].key) == k);
        }
    }
    assert forall|k: KeyView| m1.contains_key(k) implies m1[k] == m2[k] by {
        let j = choose|j: int| 0 <= j < gs.len() && key_view(#[trigger] gs[j].key) == k;
        lemma_facts_map_at(gs, j);
        if j != i {
            lemma_facts_map_at(fs, j);
        }
    }
    assert(m1 =~= m2);
}

/// Appending a fact with a fresh key inserts it into the map.
pub proof fn lemma_facts_map_push(fs: Seq<Fact>, f: Fact)
    requires
        keys_unique(fs),
        !has_key(fs, key_view(f.key)),
    ensures
        keys_unique(fs.push(f)),
        facts_map(fs.push(f)) == facts_map(fs).insert(key_view(f.key), f),
{
    let gs = fs.push(f);
    assert(keys_unique(gs)) by {
        assert forall|a: int, b: int| 0 <= a < gs.len() && 0 <= b < gs.len() && a != b
            implies key_view(#[trigger] gs[a].key) != key_view(#[trigger] gs[b].key) by {
            if a == fs.len() as int {
                assert(key_view(fs[b].key) != key_view(f.key));
            } else if b == fs.len() as int {
                assert(key_view(fs[a].key) != key_view(f.key));
            }
        }
    }
    let m1 = facts_map(gs);
    let m2 = facts_map(fs).insert(key_view(f.key), f);
    assert forall|k: KeyView| m1.contains_key(k) <==> m2.contains_key(k) by {
        if has_key(gs, k) {
            let j = choose|j: int| 0 <= j < gs.len() && key_view(#[trigger] gs[j].key) == k;
            if j < fs.len() {
                assert(key_view(fs[j].key) == k);
            }
        }
        if has_key(fs, k) {
            let j = choose|j: int| 0 <= j < fs.len() && key_view(#[trigger] fs[j].key) == k;
            assert(key_view(gs[j].key) == k);
        }
        if k == key_view(f.key) {
            assert(key_view(gs[fs.len() as int].key) == k);
        }
    }
    assert forall|k: KeyView| m1.contains_key(k) implies m1[k] == m2[k] by {
        let j = choose|j: int| 0 <= j < gs.len() && key_view(#[trigger] gs[j].key) == k;
        lemma_facts_map_at(gs, j);
        if j < fs.len() {
            lemma_facts_map_at(fs, j);
        }
    }
    assert(m1 =~= m2);
}

/// Removing the fact at `i` removes its key from the map.
pub proof fn lemma_facts_map_remove(fs: Seq<Fact>, i: int)
    requires
        keys_unique(fs),
        0 <= i < fs.len(),
    ensures
        keys_unique(fs.remove(i)),
        facts_map(fs.remove(i)) == facts_map(fs).remove(key_view(fs[i].key)),
{
    let gs = fs.remove(i);
    let ki = key_view(fs[i].key);
    assert forall|j: int| 0 <= j < gs.len() implies #[trigger] gs[j] == (if j < i { fs[j] } else { fs[j + 1] }) by {}
    assert(keys_unique(gs)) by {
        assert forall|a: int, b: int| 0 <= a < gs.len() && 0 <= b < gs.len() && a != b
            implies key_view(#[trigger] gs[a].key) != key_view(#[trigger] gs[b].key) by {
            let a2 = if a < i { a } else { a + 1 };
            let b2 = if b < i { b } else { b + 1 };
            assert(gs[a] == fs[a2]);
            assert(gs[b] == fs[b2]);
        }
    }
    let m1 = facts_map(gs);
    let m2 = facts_map(fs).remove(ki);
    assert forall|k: KeyView| m1.contains_key(k) <==> m2.contains_key(k) by {
        if has_key(gs, k) {
            let j = choose|j: int| 0 <= j < gs.len() && key_view(#[trigger] gs[j].key) == k;
            let j2 = if j < i { j } else { j + 1 };
            assert(gs[j] == fs[j2]);
            assert(key_view(fs[j2].key) == k);
            assert(j2 != i);
        }
        if has_key(fs, k) && k != ki {
            let j = choose|j: int| 0 <= j < fs.len() && key_view(#[trigger] fs[j].key) == k;
            assert(j != i);
            let j2 = if j < i { j } else { j - 1 };
            assert(gs[j2] == fs[j]);
            assert(key_view(gs[j2].key) == k);
        }
    }
    assert forall|k: KeyView| m1.contains_key(k) implies m1[k] == m2[k] by {
        let j = choose|j: int| 0 <= j < gs.len() && key_view(#[trigger] gs[j].key) == k;
        let j2 = if j < i { j } else { j + 1 };
        assert(gs[j] == fs[j2]);
        lemma_facts_map_at(gs, j);
        lemma_facts_map_at(fs, j2);
    }
    assert(m1 =~= m2);
}

/// Index of the fact with key `key` in `facts`, if any.
pub fn find_fact_index(facts: &Vec<Fact>, key: &FactKey) -> (r: Option<usize>)
    ensures
        match r {
            Some(i) => i < facts@.len() && key_view(facts@[i as int].key) == key_view(*key),
            None => !has_key(facts@, key_view(*key)),
        },
{
    let mut i: usize = 0;
    while i < facts.len()
        invariant
            i <= facts@.len(),
            forall|j: int| 0 <= j < i ==> key_view(#[trigger] facts@[j].key) != key_view(*key),
        decreases facts@.len() - i,
    {
        if facts[i].key.same_as(key) {
            return Some(i);
        }
        i = i + 1;
    }
    None
}

/// A notification delivered to a fact subscriber.
#[derive(Debug, PartialEq, Eq)]
pub enum FactEvent {
    Asserted(Fact),
    Retracted { key: FactKey, provenance: Provenance },
}

/// The key a notification is about.
pub open spec fn fact_event_key(e: FactEvent) -> FactKey {
    match e {
        FactEvent::Asserted(f) => f.key,
        FactEvent::Retracted { key, .. } => key,
    }
}

impl Clone for FactEvent {
    fn clone(&self) -> (r: Self)
        ensures
            r == *self,
    {
        match self {
            FactEvent::Asserted(f) => FactEvent::Asserted(f.clone()),
            FactEvent::Retracted { key, provenance } => FactEvent::Retracted {
                key: key.clone(),
                provenance: provenance.clone(),
            },
        }
    }
}

/// Receiving end of a fact subscription; dropping it unsubscribes.
pub struct SubscriptionHandle {
    pub rx: tokio::sync::mpsc::UnboundedReceiver<FactEvent>,
}

/// An immutable copy of the asserted facts.
pub struct FactSpaceSnapshot {
    facts: Vec<Fact>,
}

impl FactSpaceSnapshot {
    /// The facts of the snapshot, each key once.
    pub closed spec fn spec_facts(&self) -> Seq<Fact> {
        self.facts@
    }

    /// The snapshot as a map from key to fact.
    pub open spec fn view_map(&self) -> Map<KeyView, Fact> {
        facts_map(self.spec_facts())
    }

    #[verifier::type_invariant]
    spec fn unique(&self) -> bool {
        keys_unique(self.facts@)
    }

    pub(crate) fn from_facts(facts: Vec<Fact>) -> (s: Self)
        requires
            keys_unique(facts@),
        ensures
            s.spec_facts() == facts@,
    {
        FactSpaceSnapshot { facts }
    }

    /// The fact stored at `key`, if any.
    pub fn get(&self, key: &FactKey) -> (r: Option<&Fact>)
        ensures
            r is Some <==> self.view_map().contains_key(key_view(*key)),
            r is Some ==> *r.unwrap() == self.view_map()[key_view(*key)],
    {
        proof {
            use_type_invariant(self);
        }
        match find_fact_index(&self.facts, key) {
            Some(i) => {
                proof {
                    lemma_facts_map_at(self.facts@, i as int);
                }
                Some(&self.facts[i])
            },
            None => None,
        }
    }

    /// Every fact of the snapshot, each key once.
    pub fn values(&self) -> (r: &[Fact])
        ensures
            r@ == self.spec_facts(),
            keys_unique(r@),
    {
        proof {
            use_type_invariant(self);
        }
        self.facts.as_slice()
    }

    pub fn len(&self) -> (n: usize)
        ensures
            n == self.spec_facts().len(),
    {
        self.facts.len()
    }
}

/// The fact-space interface: a store of facts, at most one per key,
/// that notifies its subscribers of every change.
pub trait FactStore {
    /// The stored facts by key.
    spec fn fact_map(&self) -> Map<KeyView, Fact>;

    /// The registered subscribers, oldest first.
    spec fn subscriber_list(&self) -> Seq<in_memory::Subscriber>;

    /// Every notification handed to a subscriber so far, oldest first.
    spec fn offer_log(&self) -> Seq<(in_memory::Subscriber, FactEvent)>;

    /// Assert a fact, replacing any fact with the same key; each
    /// subscriber whose pattern matches the key is offered it.
    fn assert_fact(&mut self, fact: Fact)
        ensures
            final(self).fact_map() == old(self).fact_map().insert(key_view(fact.key), fact),
            final(self).offer_log() == old(self).offer_log() + in_memory::fact_offers(
                old(self).subscriber_list(),
                FactEvent::Asserted(fact),
            ),
    ;

    /// Retract the fact at `key`: the prior fact, if any, is returned and
    /// each subscriber whose pattern matches the key is offered the
    /// retraction; with no prior fact nothing is offered.
    fn retract(&mut self, key: &FactKey, provenance: Provenance) -> (r: Option<Fact>)
        ensures
            r is Some <==> old(self).fact_map().contains_key(key_view(*key)),
            r is Some ==> r.unwrap() == old(self).fact_map()[key_view(*key)],
            final(self).fact_map() == old(self).fact_map().remove(key_view(*key)),
            r is Some ==> final(self).offer_log() == old(self).offer_log() + in_memory::fact_offers(
                old(self).subscriber_list(),
                FactEvent::Retracted { key: *key, provenance },
            ),
            r is None ==> final(self).offer_log() == old(self).offer_log(),
    ;

    /// The fact at `key`, if any.
    fn query(&self, key: &FactKey) -> (r: Option<&Fact>)
        ensures
            r is Some <==> self.fact_map().contains_key(key_view(*key)),
            r is Some ==> *r.unwrap() == self.fact_map()[key_view(*key)],
    ;

    /// Register a subscription with `pattern`.
    fn subscribe(&mut self, pattern: SubscribePattern) -> (h: SubscriptionHandle)
        ensures
            final(self).fact_map() == old(self).fact_map(),
            final(self).subscriber_list().len() == old(self).subscriber_list().len() + 1,
            final(self).subscriber_list().drop_last() == old(self).subscriber_list(),
            final(self).subscriber_list().last().pattern == pattern,
            final(self).offer_log() == old(self).offer_log(),
    ;

    /// A snapshot of the stored facts.
    fn snapshot(&self) -> (s: FactSpaceSnapshot)
        ensures
            s.view_map() == self.fact_map(),
    ;
}

} // verus!
