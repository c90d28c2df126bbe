use weaver::fact_space::{FactEvent, InMemoryFactStore};
use weaver::provenance::{ActorIdentity, Provenance};
use weaver::trace::entry::{TracePayload, TraceSequence};
use weaver::trace::store::TraceStore;
use weaver::types::entity_ref::EntityRef;
use weaver::types::event::{Event, EventPayload};
use weaver::types::fact::{Fact, FactKey, FactValue};
use weaver::types::ids::{BehaviorId, EventId};
use weaver::types::message::SubscribePattern;

fn sample_fact(entity: u64, attr: &str, value: bool) -> Fact {
    Fact {
        key: FactKey::new(EntityRef::new(entity), attr),
        value: FactValue::Bool(value),
        provenance: Provenance::new(ActorIdentity::Core, 1000, None).unwrap(),
    }
}

fn core_prov() -> Provenance {
    Provenance::new(ActorIdentity::Core, 2000, None).unwrap()
}

#[test]
fn assert_then_query_returns_fact() {
    let mut store = InMemoryFactStore::new();
    let f = sample_fact(1, "buffer/dirty", true);
    store.assert_fact(f.clone());
    assert_eq!(store.query(&f.key), Some(&f));
}

#[test]
fn assert_twice_replaces_value() {
    let mut store = InMemoryFactStore::new();
    let f1 = sample_fact(1, "buffer/dirty", true);
    let f2 = sample_fact(1, "buffer/dirty", false);
    store.assert_fact(f1);
    store.assert_fact(f2.clone());
    assert_eq!(store.query(&f2.key), Some(&f2));
    assert_eq!(store.snapshot().len(), 1);
}

#[test]
fn retract_removes_fact_and_returns_prior() {
    let mut store = InMemoryFactStore::new();
    let f = sample_fact(1, "buffer/dirty", true);
    store.assert_fact(f.clone());
    assert_eq!(store.retract(&f.key, core_prov()), Some(f.clone()));
    assert_eq!(store.query(&f.key), None);
}

#[test]
fn retract_missing_returns_none_and_does_not_broadcast() {
    let mut store = InMemoryFactStore::new();
    let mut handle = store.subscribe(SubscribePattern::AllFacts);
    let key = FactKey::new(EntityRef::new(99), "buffer/dirty");
    assert_eq!(store.retract(&key, core_prov()), None);
    assert!(handle.rx.try_recv().is_err());
}

#[test]
fn subscribe_receives_matching_events() {
    let mut store = InMemoryFactStore::new();
    let mut handle = store.subscribe(SubscribePattern::FamilyPrefix("buffer/".into()));
    let f = sample_fact(1, "buffer/dirty", true);
    store.assert_fact(f.clone());
    match handle.rx.try_recv().unwrap() {
        FactEvent::Asserted(received) => assert_eq!(received, f),
        _ => panic!("expected Asserted"),
    }
    store.retract(&f.key, core_prov());
    match handle.rx.try_recv().unwrap() {
        FactEvent::Retracted { key, .. } => assert_eq!(key, f.key),
        _ => panic!("expected Retracted"),
    }
}

#[test]
fn subscriber_filter_family_prefix() {
    let mut store = InMemoryFactStore::new();
    let mut handle = store.subscribe(SubscribePattern::FamilyPrefix("buffer/".into()));
    store.assert_fact(sample_fact(1, "project/root", true));
    let matching = sample_fact(1, "buffer/dirty", true);
    store.assert_fact(matching.clone());
    match handle.rx.try_recv().unwrap() {
        FactEvent::Asserted(received) => assert_eq!(received, matching),
        _ => panic!("expected Asserted(matching)"),
    }
    assert!(handle.rx.try_recv().is_err());
}

#[test]
fn dropped_subscriber_is_pruned_and_others_still_receive() {
    let mut store = InMemoryFactStore::new();
    let dropped = store.subscribe(SubscribePattern::AllFacts);
    let mut kept = store.subscribe(SubscribePattern::AllFacts);
    drop(dropped);
    let f = sample_fact(3, "buffer/dirty", true);
    store.assert_fact(f.clone());
    assert!(matches!(kept.rx.try_recv().unwrap(), FactEvent::Asserted(x) if x == f));
}

#[test]
fn snapshot_mirrors_current_state() {
    let mut store = InMemoryFactStore::new();
    store.assert_fact(sample_fact(1, "buffer/dirty", true));
    store.assert_fact(sample_fact(2, "buffer/dirty", false));
    let snap = store.snapshot();
    assert_eq!(snap.len(), 2);
    assert_eq!(snap.get(&FactKey::new(EntityRef::new(2), "buffer/dirty")), Some(&sample_fact(2, "buffer/dirty", false)));
    assert_eq!(snap.get(&FactKey::new(EntityRef::new(3), "buffer/dirty")), None);
    assert_eq!(snap.values().len(), 2);
}

#[test]
fn assert_retract_round_trip_preserves_identity() {
    for entity in [0u64, 5, 99] {
        for attr in ["a/b", "buffer/dirty", "x/yyyyyyyy"] {
            for assert_value in [false, true] {
                let mut store = InMemoryFactStore::new();
                let f = sample_fact(entity, attr, assert_value);
                store.assert_fact(f.clone());
                assert_eq!(store.query(&f.key), Some(&f));
                assert_eq!(store.retract(&f.key, core_prov()), Some(f.clone()));
                assert_eq!(store.query(&f.key), None);
                store.assert_fact(f.clone());
                let f2 = sample_fact(entity, attr, !assert_value);
                store.assert_fact(f2.clone());
                assert_eq!(store.query(&f.key), Some(&f2));
            }
        }
    }
}

fn open_event(id: u128) -> Event {
    Event {
        id: EventId::new(id),
        name: "buffer/open".into(),
        target: Some(EntityRef::new(1)),
        payload: EventPayload::BufferOpen { path: "/tmp/weaver-fixture".into() },
        provenance: Provenance::new(ActorIdentity::Tui, 100, None).unwrap(),
    }
}

#[test]
fn append_and_lookup_event() {
    let mut store = TraceStore::new();
    let event = open_event(42);
    let id = event.id;
    let seq = store.append(100, TracePayload::Event { event });
    assert_eq!(store.find_event(id), Some(seq));
    assert_eq!(store.get(seq).unwrap().sequence, seq);
    assert_eq!(store.len(), 1);
    assert!(!store.is_empty());
    assert_eq!(store.find_event(EventId::new(43)), None);
}

#[test]
fn trace_sequences_count_up_from_zero() {
    let mut store = TraceStore::new();
    assert!(store.is_empty());
    let a = store.append(1, TracePayload::Event { event: open_event(1) });
    let b = store.append(2, TracePayload::Event { event: open_event(2) });
    assert_eq!(a, TraceSequence::new(0));
    assert_eq!(b, TraceSequence::new(1));
    assert_eq!(a.next(), b);
    assert_eq!(store.entries().len(), 2);
    assert_eq!(store.entries()[1].timestamp_ns, 2);
    assert!(store.get(TraceSequence::new(2)).is_none());
}

#[test]
fn fact_inspection_records_asserting_behavior() {
    let mut store = TraceStore::new();
    let behavior = BehaviorId::new("core/dirty-tracking".into());
    let event_id = EventId::new(42);
    let fact_key = FactKey::new(EntityRef::new(1), "buffer/dirty");
    store.append(100, TracePayload::Event { event: open_event(42) });
    let fact = Fact {
        key: fact_key.clone(),
        value: FactValue::Bool(true),
        provenance: Provenance::new(ActorIdentity::behavior(behavior.clone()), 200, Some(event_id)).unwrap(),
    };
    let assert_seq = store.append(200, TracePayload::FactAsserted { fact });
    store.append(
        201,
        TracePayload::BehaviorFired {
            behavior: behavior.clone(),
            triggering_event: event_id,
            asserted: vec![fact_key.clone()],
            retracted: vec![],
            error: None,
        },
    );
    let (ev, bid, seq) = store.fact_inspection(&fact_key).unwrap();
    assert_eq!(ev, event_id);
    assert_eq!(bid, behavior);
    assert_eq!(seq, assert_seq);
    assert_eq!(store.find_fact_assert(&fact_key), Some(assert_seq));
}

#[test]
fn retraction_clears_fact_inspection() {
    let mut store = TraceStore::new();
    let behavior = BehaviorId::new("core/dirty-tracking".into());
    let event_id = EventId::new(42);
    let fact_key = FactKey::new(EntityRef::new(1), "buffer/dirty");
    let fact = Fact {
        key: fact_key.clone(),
        value: FactValue::Bool(true),
        provenance: Provenance::new(ActorIdentity::behavior(behavior.clone()), 200, Some(event_id)).unwrap(),
    };
    store.append(200, TracePayload::FactAsserted { fact });
    store.append(
        201,
        TracePayload::BehaviorFired {
            behavior: behavior.clone(),
            triggering_event: event_id,
            asserted: vec![fact_key.clone()],
            retracted: vec![],
            error: None,
        },
    );
    assert!(store.fact_inspection(&fact_key).is_some());
    let retract_seq = store.append(
        300,
        TracePayload::FactRetracted {
            key: fact_key.clone(),
            provenance: Provenance::new(ActorIdentity::Core, 300, None).unwrap(),
        },
    );
    assert!(store.fact_inspection(&fact_key).is_none());
    assert_eq!(store.find_fact(&fact_key), Some(retract_seq));
}
