//! In-memory fact store with subscriber notification.

use vstd::prelude::*;
use crate::channel::{
    fanned_out, kept_by, lemma_kept_by_step, lemma_targeted_in_contains, lemma_targeted_in_step, offers_of, send_unbounded, targeted_in,
    unbounded_channel,
};
use crate::fact_space::{
    FactStore,
    FactEvent, FactSpaceSnapshot, KeyView, SubscriptionHandle, fact_event_key, facts_map, find_fact_index,
    has_key, key_view, keys_unique, lemma_facts_map_at, lemma_facts_map_push, lemma_facts_map_remove,
    lemma_facts_map_update,
};
use crate::provenance::Provenance;
use crate::types::fact::{Fact, FactKey};
use crate::types::message::{SubscribePattern, pattern_matches};

verus! {

/// One subscriber: its pattern and the sending half of its channel.
pub struct Subscriber {
    pub pattern: SubscribePattern,
    pub tx: tokio::sync::mpsc::UnboundedSender<FactEvent>,
}

/// In-memory fact store: one fact per key, plus subscribers.
pub struct InMemoryFactStore {
    facts: Vec<Fact>,
    subscribers: Vec<Subscriber>,
    /// Every notification handed to a subscriber's channel, with the
    /// subscriber, oldest first.
    offers: Ghost<Seq<(Subscriber, FactEvent)>>,
}

/// The subscribers a notification about `key` is for: those whose
/// pattern matches the key.
pub open spec fn fact_targeted(key: FactKey) -> spec_fn(Subscriber) -> bool {
    |s: Subscriber| pattern_matches(s.pattern, key)
}

/// The offers a notification makes: `event` to each subscriber of `subs`
/// whose pattern matches its key, in order.
pub open spec fn fact_offers(subs: Seq<Subscriber>, event: FactEvent) -> Seq<(Subscriber, FactEvent)> {
    offers_of(subs, fact_targeted(fact_event_key(event)), event)
}

/// Delivery: a notification is offered to every subscriber registered
/// when it is made whose pattern matches its key.
pub proof fn lemma_matching_subscriber_offered(subs: Seq<Subscriber>, event: FactEvent, j: int)
    requires
        0 <= j < subs.len(),
        pattern_matches(subs[j].pattern, fact_event_key(event)),
    ensures
        fact_offers(subs, event).contains((subs[j], event)),
{
    let f = fact_targeted(fact_event_key(event));
    lemma_targeted_in_contains(subs, f, j);
    let t = targeted_in(subs, f);
    let k = choose|k: int| 0 <= k < t.len() && t[k] == subs[j];
    assert(fact_offers(subs, event)[k] == (subs[j], event));
}

/// A new subscription receives what is asserted next: after
/// `subscribe(p)` took the store from `s0` to `s1`, an `assert_fact` of a
/// fact whose key `p` matches, taking `s1` to `s2`, offers that fact to
/// the new subscriber.
pub proof fn lemma_new_subscriber_offered_next_assert(
    s0: InMemoryFactStore,
    s1: InMemoryFactStore,
    s2: InMemoryFactStore,
    p: SubscribePattern,
    fact: Fact,
)
    requires
        s1.spec_subscribers().len() == s0.spec_subscribers().len() + 1,
        s1.spec_subscribers().drop_last() == s0.spec_subscribers(),
        s1.spec_subscribers().last().pattern == p,
        s2.spec_offers() == s1.spec_offers() + fact_offers(s1.spec_subscribers(), FactEvent::Asserted(fact)),
        pattern_matches(p, fact.key),
    ensures
        s2.spec_offers().contains((s1.spec_subscribers().last(), FactEvent::Asserted(fact))),
{
    let subs = s1.spec_subscribers();
    let j = subs.len() - 1;
    lemma_matching_subscriber_offered(subs, FactEvent::Asserted(fact), j);
    let o = fact_offers(subs, FactEvent::Asserted(fact));
    let k = choose|k: int| 0 <= k < o.len() && o[k] == (subs[j], FactEvent::Asserted(fact));
    assert(s2.spec_offers()[s1.spec_offers().len() + k] == o[k]);
}

/// What a broadcast may do to the subscriber list: keep, in order, a
/// subsequence of it that contains every subscriber whose pattern does
/// not match `key`.
pub open spec fn pruned_for(before: Seq<Subscriber>, after: Seq<Subscriber>, key: FactKey) -> bool {
    &&& after.len() <= before.len()
    &&& forall|j: int| 0 <= j < before.len() && !pattern_matches(before[j].pattern, key)
        ==> after.contains(#[trigger] before[j])
    &&& forall|i: int| 0 <= i < after.len() ==> before.contains(#[trigger] after[i])
}

impl InMemoryFactStore {
    /// The stored facts (each key once).
    pub closed spec fn spec_facts(&self) -> Seq<Fact> {
        self.facts@
    }

    /// The registered subscribers, oldest first.
    pub closed spec fn spec_subscribers(&self) -> Seq<Subscriber> {
        self.subscribers@
    }

    /// The notifications offered so far, each with the subscriber it was
    /// handed to.
    pub closed spec fn spec_offers(&self) -> Seq<(Subscriber, FactEvent)> {
        self.offers@
    }

    /// The stored facts as a map from key to fact; the subscribers are
    /// `spec_subscribers`.
    pub open spec fn view_map(&self) -> Map<KeyView, Fact> {
        facts_map(self.spec_facts())
    }

    #[verifier::type_invariant]
    spec fn unique(&self) -> bool {
        keys_unique(self.facts@)
    }

    pub fn new() -> (s: Self)
        ensures
            s.view_map() == Map::<KeyView, Fact>::empty(),
            s.spec_subscribers().len() == 0,
            s.spec_offers().len() == 0,
    {
        let s = InMemoryFactStore { facts: Vec::new(), subscribers: Vec::new(), offers: Ghost(Seq::empty()) };
        assert(facts_map(s.facts@) =~= Map::<KeyView, Fact>::empty());
        s
    }

    /// Send `event` to every matching subscriber, dropping those whose
    /// receiving half is gone.
    fn broadcast(&mut self, event: FactEvent)
        ensures
            final(self).spec_facts() == old(self).spec_facts(),
            pruned_for(old(self).spec_subscribers(), final(self).spec_subscribers(), fact_event_key(event)),
            fanned_out(
                old(self).spec_subscribers(),
                final(self).spec_subscribers(),
                |s: Subscriber| pattern_matches(s.pattern, fact_event_key(event)),
            ),
            final(self).spec_offers() == old(self).spec_offers() + fact_offers(old(self).spec_subscribers(), event),
    {
        proof {
            use_type_invariant(&*self);
        }
        let ghost o0 = self.offers@;
        let ghost f = fact_targeted(fact_event_key(event));
        let key = match &event {
            FactEvent::Asserted(f) => f.key.clone(),
            FactEvent::Retracted { key, .. } => key.clone(),
        };
        let mut old_subs: Vec<Subscriber> = Vec::new();
        std::mem::swap(&mut old_subs, &mut self.subscribers);
        let ghost before = old_subs@;
        let mut kept: Vec<Subscriber> = Vec::new();
        let mut rest = old_subs;
        let ghost mut taken: int = 0;
        let ghost mut keeps: Seq<bool> = Seq::empty();
        // Walk the list front to back, keeping each subscriber that does
        // not match or whose channel accepted the event.
        assert(rest@ =~= before.subrange(0, before.len() as int));
        assert(kept@ =~= kept_by(before.subrange(0, 0), keeps));
        assert(fact_offers(before.subrange(0, 0), event) =~= Seq::<(Subscriber, FactEvent)>::empty());
        assert(self.offers@ =~= o0 + fact_offers(before.subrange(0, 0), event));
        while rest.len() > 0
            invariant
                rest@ == before.subrange(taken, before.len() as int),
                0 <= taken <= before.len(),
                key == fact_event_key(event),
                f == fact_targeted(fact_event_key(event)),
                self.offers@ == o0 + fact_offers(before.subrange(0, taken), event),
                self.facts == old(self).facts,
                keys_unique(self.facts@),
                kept@.len() <= taken,
                keeps.len() == taken,
                kept@ == kept_by(before.subrange(0, taken), keeps),
                forall|j: int| 0 <= j < taken && !pattern_matches(before[j].pattern, key) ==> #[trigger] keeps[j],
                forall|j: int| 0 <= j < taken && !pattern_matches(before[j].pattern, key)
                    ==> kept@.contains(#[trigger] before[j]),
                forall|i: int| 0 <= i < kept@.len() ==> before.contains(#[trigger] kept@[i]),
            decreases rest@.len(),
        {
            let sub = rest.remove(0);
            proof {
                assert(sub == before[taken]);
                taken = taken + 1;
                assert(rest@ =~= before.subrange(taken, before.len() as int));
            }
            let ghost log = self.offers@;
            proof {
                lemma_targeted_in_step(before, taken - 1, f);
                let t0 = targeted_in(before.subrange(0, taken - 1), f);
                assert(t0.push(sub).map_values(|t: Subscriber| (t, event)) =~= t0.map_values(
                    |t: Subscriber| (t, event),
                ).push((sub, event)));
            }
            let keep = if sub.pattern.matches(&key) {
                let ev = event.clone();
                let sent = send_unbounded(&sub.tx, ev);
                self.offers = Ghost(self.offers@.push((sub, event)));
                proof {
                    assert(self.offers@ =~= o0 + fact_offers(before.subrange(0, taken), event));
                }
                sent
            } else {
                true
            };
            proof {
                lemma_kept_by_step(before, taken - 1, keeps, keep);
                keeps = keeps.push(keep);
            }
            if keep {
                proof {
                    assert(before[taken - 1] == sub);
                }
                let ghost k0 = kept@;
                kept.push(sub);
                proof {
                    assert(kept@[kept@.len() - 1] == before[taken - 1]);
                    assert forall|j: int| 0 <= j < taken && !pattern_matches(before[j].pattern, key)
                        implies kept@.contains(#[trigger] before[j]) by {
                        if j == taken - 1 {
                            assert(kept@[kept@.len() - 1] == before[j]);
                        } else {
                            assert(k0.contains(before[j]));
                            let i0 = choose|i: int| 0 <= i < k0.len() && k0[i] == before[j];
                            assert(kept@[i0] == before[j]);
                        }
                    }
                    assert forall|i: int| 0 <= i < kept@.len() implies before.contains(#[trigger] kept@[i]) by {
                        if i == kept@.len() - 1 {
                            assert(before[taken - 1] == kept@[i]);
                        } else {
                            assert(kept@[i] == k0[i]);
                        }
                    }
                }
            }
        }
        assert(taken == before.len());
        assert(before.subrange(0, taken) =~= before);
        assert(kept_by(before, keeps) == kept@);
        self.subscribers = kept;
    }

    /// Assert a fact, replacing any fact with the same key, and notify
    /// matching subscribers.
    pub fn assert_fact(&mut self, fact: Fact)
        ensures
            final(self).view_map() == old(self).view_map().insert(key_view(fact.key), fact),
            pruned_for(old(self).spec_subscribers(), final(self).spec_subscribers(), fact.key),
            fanned_out(
                old(self).spec_subscribers(),
                final(self).spec_subscribers(),
                |s: Subscriber| pattern_matches(s.pattern, fact.key),
            ),
            final(self).spec_offers() == old(self).spec_offers() + fact_offers(
                old(self).spec_subscribers(),
                FactEvent::Asserted(fact),
            ),
    {
        proof {
            use_type_invariant(&*self);
        }
        let stored = fact.clone();
        let mut facts: Vec<Fact> = Vec::new();
        std::mem::swap(&mut facts, &mut self.facts);
        match find_fact_index(&facts, &fact.key) {
            Some(i) => {
                proof {
                    lemma_facts_map_update(facts@, i as int, stored);
                }
                facts.set(i, stored);
            },
            None => {
                proof {
                    lemma_facts_map_push(facts@, stored);
                }
                facts.push(stored);
            },
        }
        self.facts = facts;
        self.broadcast(FactEvent::Asserted(fact));
    }

    /// Retract the fact at `key`. Returns the prior fact; subscribers are
    /// notified only when there was one.
    pub fn retract(&mut self, key: &FactKey, provenance: Provenance) -> (r: Option<Fact>)
        ensures
            r is Some <==> old(self).view_map().contains_key(key_view(*key)),
            r is Some ==> r.unwrap() == old(self).view_map()[key_view(*key)],
            final(self).view_map() == old(self).view_map().remove(key_view(*key)),
            r is Some ==> pruned_for(old(self).spec_subscribers(), final(self).spec_subscribers(), *key),
            r is Some ==> fanned_out(
                old(self).spec_subscribers(),
                final(self).spec_subscribers(),
                |s: Subscriber| pattern_matches(s.pattern, *key),
            ),
            r is None ==> final(self).spec_subscribers() == old(self).spec_subscribers(),
            r is Some ==> final(self).spec_offers() == old(self).spec_offers() + fact_offers(
                old(self).spec_subscribers(),
                FactEvent::Retracted { key: *key, provenance },
            ),
            r is None ==> final(self).spec_offers() == old(self).spec_offers(),
    {
        proof {
            use_type_invariant(&*self);
        }
        match find_fact_index(&self.facts, key) {
            Some(i) => {
                let mut facts: Vec<Fact> = Vec::new();
                std::mem::swap(&mut facts, &mut self.facts);
                proof {
                    lemma_facts_map_at(facts@, i as int);
                    lemma_facts_map_remove(facts@, i as int);
                }
                let prev = facts.remove(i);
                self.facts = facts;
                self.broadcast(FactEvent::Retracted { key: key.clone(), provenance });
                Some(prev)
            },
            None => {
                assert(facts_map(self.facts@).remove(key_view(*key)) =~= facts_map(self.facts@));
                None
            },
        }
    }

    /// The fact stored at `key`, if any.
    pub fn query(&self, key: &FactKey) -> (r: Option<&Fact>)
        ensures
            r is Some <==> self.view_map().contains_key(key_view(*key)),
            r is Some ==> *r.unwrap() == self.view_map()[key_view(*key)],
    {
        proof {
            use_type_invariant(self);
        }
        match find_fact_index(&self.facts, key) {
            Some(i) => {
                proof {
                    lemma_facts_map_at(self.facts@, i as int);
                }
                Some(&self.facts[i])
            },
            None => None,
        }
    }

    /// Register a subscriber and return its receiving half.
    pub fn subscribe(&mut self, pattern: SubscribePattern) -> (h: SubscriptionHandle)
        ensures
            final(self).spec_facts() == old(self).spec_facts(),
            final(self).spec_subscribers().len() == old(self).spec_subscribers().len() + 1,
            final(self).spec_subscribers().drop_last() == old(self).spec_subscribers(),
            final(self).spec_subscribers().last().pattern == pattern,
            final(self).spec_offers() == old(self).spec_offers(),
    {
        proof {
            use_type_invariant(&*self);
        }
        let (tx, rx) = unbounded_channel::<FactEvent>();
        let mut subs: Vec<Subscriber> = Vec::new();
        std::mem::swap(&mut subs, &mut self.subscribers);
        subs.push(Subscriber { pattern, tx });
        self.subscribers = subs;
        assert(self.subscribers@.drop_last() =~= old(self).subscribers@);
        SubscriptionHandle { rx }
    }

    /// A copy of every asserted fact.
    pub fn snapshot(&self) -> (s: FactSpaceSnapshot)
        ensures
            s.spec_facts() == self.spec_facts(),
            s.view_map() == self.view_map(),
    {
        proof {
            use_type_invariant(self);
        }
        let mut out: Vec<Fact> = Vec::new();
        let mut i: usize = 0;
        while i < self.facts.len()
            invariant
                i <= self.facts@.len(),
                out@ == self.facts@.subrange(0, i as int),
            decreases self.facts@.len() - i,
        {
            out.push(self.facts[i].clone());
            i = i + 1;
            assert(out@ =~= self.facts@.subrange(0, i as int));
        }
        assert(out@ =~= self.facts@);
        FactSpaceSnapshot::from_facts(out)
    }
}

/// Read after write: once `f` is asserted (`s1` is `s0` after
/// `assert_fact(f)`), a query of `f`'s key finds `f`, and every other
/// key reads as it did before.
pub proof fn lemma_query_after_assert(s0: InMemoryFactStore, s1: InMemoryFactStore, f: Fact)
    requires
        s1.view_map() == s0.view_map().insert(key_view(f.key), f),
    ensures
        s1.view_map().contains_key(key_view(f.key)),
        s1.view_map()[key_view(f.key)] == f,
        forall|k: KeyView|
            k != key_view(f.key) ==> (#[trigger] s1.view_map().contains_key(k) == s0.view_map().contains_key(k)
                && (s0.view_map().contains_key(k) ==> s1.view_map()[k] == s0.view_map()[k])),
{
}

/// Latest write wins: asserting `f` and then `g` under the same key
/// leaves `g` there, exactly as if only `g` had been asserted.
pub proof fn lemma_assert_twice_latest_wins(
    s0: InMemoryFactStore,
    s1: InMemoryFactStore,
    s2: InMemoryFactStore,
    f: Fact,
    g: Fact,
)
    requires
        key_view(f.key) == key_view(g.key),
        s1.view_map() == s0.view_map().insert(key_view(f.key), f),
        s2.view_map() == s1.view_map().insert(key_view(g.key), g),
    ensures
        s2.view_map()[key_view(f.key)] == g,
        s2.view_map() == s0.view_map().insert(key_view(g.key), g),
{
    assert(s2.view_map() =~= s0.view_map().insert(key_view(g.key), g));
}

/// Assert then retract: retracting the key of a just-asserted fact
/// returns that fact and leaves the store without the key, as it was
/// before apart from that key.
pub proof fn lemma_assert_then_retract(
    s0: InMemoryFactStore,
    s1: InMemoryFactStore,
    s2: InMemoryFactStore,
    f: Fact,
    r: Option<Fact>,
)
    requires
        s1.view_map() == s0.view_map().insert(key_view(f.key), f),
        r is Some <==> s1.view_map().contains_key(key_view(f.key)),
        r is Some ==> r.unwrap() == s1.view_map()[key_view(f.key)],
        s2.view_map() == s1.view_map().remove(key_view(f.key)),
    ensures
        r == Some(f),
        !s2.view_map().contains_key(key_view(f.key)),
        s2.view_map() == s0.view_map().remove(key_view(f.key)),
{
    assert(s2.view_map() =~= s0.view_map().remove(key_view(f.key)));
}

/// Retracting a key that holds no fact returns nothing, changes nothing
/// and notifies no subscriber.
pub proof fn lemma_retract_absent_is_noop(
    s0: InMemoryFactStore,
    s1: InMemoryFactStore,
    key: FactKey,
    r: Option<Fact>,
)
    requires
        !s0.view_map().contains_key(key_view(key)),
        r is Some <==> s0.view_map().contains_key(key_view(key)),
        s1.view_map() == s0.view_map().remove(key_view(key)),
        r is None ==> s1.spec_subscribers() == s0.spec_subscribers(),
    ensures
        r is None,
        s1.view_map() == s0.view_map(),
        s1.spec_subscribers() == s0.spec_subscribers(),
{
    assert(s1.view_map() =~= s0.view_map());
}

impl FactStore for InMemoryFactStore {
    open spec fn fact_map(&self) -> Map<KeyView, Fact> {
        self.view_map()
    }

    open spec fn subscriber_list(&self) -> Seq<Subscriber> {
        self.spec_subscribers()
    }

    open spec fn offer_log(&self) -> Seq<(Subscriber, FactEvent)> {
        self.spec_offers()
    }

    fn assert_fact(&mut self, fact: Fact) {
        InMemoryFactStore::assert_fact(self, fact)
    }

    fn retract(&mut self, key: &FactKey, provenance: Provenance) -> (r: Option<Fact>) {
        InMemoryFactStore::retract(self, key, provenance)
    }

    fn query(&self, key: &FactKey) -> (r: Option<&Fact>) {
        InMemoryFactStore::query(self, key)
    }

    fn subscribe(&mut self, pattern: SubscribePattern) -> (h: SubscriptionHandle) {
        InMemoryFactStore::subscribe(self, pattern)
    }

    fn snapshot(&self) -> (s: FactSpaceSnapshot) {
        InMemoryFactStore::snapshot(self)
    }
}

} // verus!
