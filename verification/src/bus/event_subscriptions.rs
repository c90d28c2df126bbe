//! Registry of event subscriptions: lossy fan-out of bus events to the
//! connections that asked for their payload type.

use vstd::prelude::*;
use crate::channel::{
    fanned_out, kept_by, lemma_kept_by_step, lemma_targeted_in_step, send_unbounded, targeted_in, unbounded_channel,
};
use crate::types::event::{Event, same_event};
use crate::types::message::{EventSubscribePattern, event_pattern_matches};

verus! {

/// Receiving end of an event subscription; dropping it unsubscribes.
pub struct EventSubscriptionHandle {
    pub rx: tokio::sync::mpsc::UnboundedReceiver<Event>,
}

/// One event subscriber: its pattern and the sending half of its channel.
pub struct EventSubscriber {
    pub pattern: EventSubscribePattern,
    pub tx: tokio::sync::mpsc::UnboundedSender<Event>,
}

/// A broadcast keeps a subsequence of the subscribers that contains
/// every subscriber whose pattern does not match the event.
pub open spec fn event_pruned_for(before: Seq<EventSubscriber>, after: Seq<EventSubscriber>, e: Event) -> bool {
    &&& after.len() <= before.len()
    &&& forall|j: int| 0 <= j < before.len() && !event_pattern_matches(before[j].pattern, e)
        ==> after.contains(#[trigger] before[j])
    &&& forall|i: int| 0 <= i < after.len() ==> before.contains(#[trigger] after[i])
}

/// Registry of active event subscriptions.
pub struct EventSubscriptions {
    subscribers: Vec<EventSubscriber>,
    /// Every event handed to a subscriber's channel, with the subscriber,
    /// oldest first.
    offers: Ghost<Seq<(EventSubscriber, Event)>>,
}

/// The subscribers an event is for: those whose pattern matches it.
pub open spec fn event_targeted(e: Event) -> spec_fn(EventSubscriber) -> bool {
    |s: EventSubscriber| event_pattern_matches(s.pattern, e)
}

/// `after` extends the offer log `before` with `e` offered to each
/// subscriber of `subs` whose pattern matches it, in order.
pub open spec fn offered_event(
    before: Seq<(EventSubscriber, Event)>,
    after: Seq<(EventSubscriber, Event)>,
    subs: Seq<EventSubscriber>,
    e: Event,
) -> bool {
    &&& before.is_prefix_of(after)
    &&& after.skip(before.len() as int).map_values(|o: (EventSubscriber, Event)| o.0) == targeted_in(
        subs,
        event_targeted(e),
    )
    &&& forall|k: int| before.len() <= k < after.len() ==> same_event(#[trigger] after[k].1, e)
}

impl EventSubscriptions {
    /// The registered subscribers, oldest first.
    pub closed spec fn spec_subscribers(&self) -> Seq<EventSubscriber> {
        self.subscribers@
    }

    /// The events offered so far, each with the subscriber it was
    /// handed to.
    pub closed spec fn spec_offers(&self) -> Seq<(EventSubscriber, Event)> {
        self.offers@
    }

    pub fn new() -> (s: Self)
        ensures
            s.spec_subscribers().len() == 0,
            s.spec_offers().len() == 0,
    {
        EventSubscriptions { subscribers: Vec::new(), offers: Ghost(Seq::empty()) }
    }

    /// Register a subscription and return its receiving half.
    pub fn subscribe(&mut self, pattern: EventSubscribePattern) -> (h: EventSubscriptionHandle)
        ensures
            final(self).spec_subscribers().len() == old(self).spec_subscribers().len() + 1,
            final(self).spec_subscribers().drop_last() == old(self).spec_subscribers(),
            final(self).spec_subscribers().last().pattern == pattern,
            final(self).spec_offers() == old(self).spec_offers(),
    {
        let (tx, rx) = unbounded_channel::<Event>();
        self.subscribers.push(EventSubscriber { pattern, tx });
        assert(self.subscribers@.drop_last() =~= old(self).subscribers@);
        EventSubscriptionHandle { rx }
    }

    /// Send `event` to every matching subscriber, dropping those whose
    /// receiving half is gone.
    pub fn broadcast(&mut self, event: &Event)
        ensures
            event_pruned_for(old(self).spec_subscribers(), final(self).spec_subscribers(), *event),
            fanned_out(
                old(self).spec_subscribers(),
                final(self).spec_subscribers(),
                |s: EventSubscriber| event_pattern_matches(s.pattern, *event),
            ),
            offered_event(old(self).spec_offers(), final(self).spec_offers(), old(self).spec_subscribers(), *event),
    {
        let ghost o0 = self.offers@;
        let ghost f = event_targeted(*event);
        let mut rest: Vec<EventSubscriber> = Vec::new();
        std::mem::swap(&mut rest, &mut self.subscribers);
        let ghost before = rest@;
        let mut kept: Vec<EventSubscriber> = Vec::new();
        let ghost mut taken: int = 0;
        let ghost mut keeps: Seq<bool> = Seq::empty();
        assert(rest@ =~= before.subrange(0, before.len() as int));
        assert(kept@ =~= kept_by(before.subrange(0, 0), keeps));
        assert(self.offers@.skip(o0.len() as int) =~= Seq::<(EventSubscriber, Event)>::empty());
        assert(targeted_in(before.subrange(0, 0), f) =~= Seq::<EventSubscriber>::empty());
        assert(self.offers@.skip(o0.len() as int).map_values(|o: (EventSubscriber, Event)| o.0)
            =~= Seq::<EventSubscriber>::empty());
        assert(o0.is_prefix_of(self.offers@));
        while rest.len() > 0
            invariant
                f == event_targeted(*event),
                offered_event(o0, self.offers@, before.subrange(0, taken), *event),
                rest@ == before.subrange(taken, before.len() as int),
                0 <= taken <= before.len(),
                kept@.len() <= taken,
                keeps.len() == taken,
                kept@ == kept_by(before.subrange(0, taken), keeps),
                forall|j: int| 0 <= j < taken && !event_pattern_matches(before[j].pattern, *event) ==> #[trigger] keeps[j],
                forall|j: int| 0 <= j < taken && !event_pattern_matches(before[j].pattern, *event)
                    ==> kept@.contains(#[trigger] before[j]),
                forall|i: int| 0 <= i < kept@.len() ==> before.contains(#[trigger] kept@[i]),
            decreases rest@.len(),
        {
            let sub = rest.remove(0);
            proof {
                assert(sub == before[taken]);
                taken = taken + 1;
                assert(rest@ =~= before.subrange(taken, before.len() as int));
            }
            let ghost log = self.offers@;
            proof {
                lemma_targeted_in_step(before, taken - 1, f);
            }
            let keep = if sub.pattern.matches(event) {
                let ev = event.clone();
                let ghost offered = (sub, ev);
                let sent = send_unbounded(&sub.tx, ev);
                self.offers = Ghost(self.offers@.push(offered));
                proof {
                    let a = log.skip(o0.len() as int);
                    let b = self.offers@.skip(o0.len() as int);
                    assert(b =~= a.push(offered));
                    assert(b.map_values(|o: (EventSubscriber, Event)| o.0) =~= a.map_values(
                        |o: (EventSubscriber, Event)| o.0,
                    ).push(sub));
                    assert forall|k: int| o0.len() <= k < self.offers@.len() implies same_event(
                        #[trigger] self.offers@[k].1,
                        *event,
                    ) by {
                        if k < log.len() {
                            assert(self.offers@[k] == log[k]);
                        }
                    }
                }
                sent
            } else {
                true
            };
            proof {
                lemma_kept_by_step(before, taken - 1, keeps, keep);
                keeps = keeps.push(keep);
            }
            if keep {
                let ghost k0 = kept@;
                kept.push(sub);
                proof {
                    assert(kept@[kept@.len() - 1] == before[taken - 1]);
                    assert forall|j: int| 0 <= j < taken && !event_pattern_matches(before[j].pattern, *event)
                        implies kept@.contains(#[trigger] before[j]) by {
                        if j == taken - 1 {
                            assert(kept@[kept@.len() - 1] == before[j]);
                        } else {
                            assert(k0.contains(before[j]));
                            let i0 = choose|i: int| 0 <= i < k0.len() && k0[i] == before[j];
                            assert(kept@[i0] == before[j]);
                        }
                    }
                    assert forall|i: int| 0 <= i < kept@.len() implies before.contains(#[trigger] kept@[i]) by {
                        if i == kept@.len() - 1 {
                            assert(before[taken - 1] == kept@[i]);
                        } else {
                            assert(kept@[i] == k0[i]);
                        }
                    }
                }
            }
        }
        assert(taken == before.len());
        assert(before.subrange(0, taken) =~= before);
        assert(kept_by(before, keeps) == kept@);
        self.subscribers = kept;
    }

    /// Number of registered subscribers.
    pub fn subscriber_count(&self) -> (n: usize)
        ensures
            n == self.spec_subscribers().len(),
    {
        self.subscribers.len()
    }
}

} // verus!
