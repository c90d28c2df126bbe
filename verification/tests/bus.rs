use weaver::behavior::dispatcher::{
    AuthorityMap, Behavior, BehaviorContext, BehaviorOutputs, Dispatcher, ServicePublishOutcome,
    ServiceRetractOutcome,
};
use weaver::bus::client::{check_handshake_reply, check_subscribe_reply, hello, ClientError};
use weaver::bus::codec::{decode_frame_length, encode_frame, CodecError, MAX_EVENT_INGEST_FRAME, MAX_FRAME_SIZE};
use weaver::bus::delivery::SequenceCounter;
use weaver::bus::event_subscriptions::EventSubscriptions;
use weaver::bus::listener::{
    handle_client_message, handshake, lookup_event_for_inspect, validate_event_envelope, HandlerOutcome,
    ListenerError,
};
use weaver::provenance::{ActorIdentity, Provenance};
use weaver::trace::entry::TracePayload;
use weaver::trace::store::TraceStore;
use weaver::types::edit::{Position, Range, TextEdit};
use weaver::types::entity_ref::EntityRef;
use weaver::types::event::{Event, EventPayload};
use weaver::types::fact::{Fact, FactKey, FactValue};
use weaver::types::ids::{BehaviorId, EventId};
use weaver::types::message::{
    BusMessage, EventInspectionError, EventSubscribePattern, HelloMsg, InspectionError, LifecycleSignal,
    SubscribePattern, BUS_PROTOCOL_VERSION,
};

fn buffer_edit(id: EventId, target: Option<EntityRef>, entity: EntityRef) -> Event {
    Event {
        id,
        name: "buffer/edit".into(),
        target,
        payload: EventPayload::BufferEdit {
            entity,
            version: 0,
            edits: vec![TextEdit {
                range: Range {
                    start: Position { line: 0, character: 0 },
                    end: Position { line: 0, character: 0 },
                },
                new_text: "x".into(),
            }],
        },
        provenance: Provenance::new(ActorIdentity::User, 0, None).unwrap(),
    }
}

fn buffer_open(id: EventId, target: Option<EntityRef>) -> Event {
    Event {
        id,
        name: "buffer/open".into(),
        target,
        payload: EventPayload::BufferOpen { path: "/tmp/x".into() },
        provenance: Provenance::new(ActorIdentity::User, 0, None).unwrap(),
    }
}

fn buffer_save(entity: EntityRef) -> Event {
    Event {
        id: EventId::for_testing(0),
        name: "test".into(),
        target: None,
        payload: EventPayload::BufferSave { entity, version: 0 },
        provenance: Provenance::new(ActorIdentity::Core, 0, None).unwrap(),
    }
}

fn service_identity(name: &str, inst: u128) -> ActorIdentity {
    ActorIdentity::service(name.to_string(), inst).expect("valid service identity")
}

fn service_fact(entity: u64, attr: &str, who: &ActorIdentity, value: bool) -> Fact {
    Fact {
        key: FactKey::new(EntityRef::new(entity), attr),
        value: FactValue::Bool(value),
        provenance: Provenance::new(who.clone(), 10, None).unwrap(),
    }
}

#[test]
fn rejects_event_id_zero() {
    let entity = EntityRef::new(7);
    let event = buffer_edit(EventId::nil(), Some(entity), entity);
    let err = validate_event_envelope(&event).expect_err("ZERO must be rejected");
    assert!(err.contains("ZERO"), "error must name ZERO sentinel: {err}");
}

#[test]
fn rejects_buffer_edit_with_target_payload_mismatch() {
    let event = buffer_edit(EventId::new(1), Some(EntityRef::new(1)), EntityRef::new(2));
    let err = validate_event_envelope(&event).expect_err("mismatch must be rejected");
    assert!(err.contains("BufferEdit envelope/payload mismatch"), "{err}");
    assert!(err.contains("target=1"), "{err}");
    assert!(err.contains("payload.entity=2"), "{err}");
}

#[test]
fn rejects_buffer_edit_with_none_target() {
    let event = buffer_edit(EventId::new(1), None, EntityRef::new(2));
    let err = validate_event_envelope(&event).expect_err("None target must be rejected");
    assert!(err.contains("target=None"), "{err}");
}

#[test]
fn accepts_buffer_edit_with_consistent_target_and_entity() {
    let entity = EntityRef::new(42);
    let event = buffer_edit(EventId::new(1), Some(entity), entity);
    validate_event_envelope(&event).expect("consistent envelope must pass");
}

#[test]
fn accepts_buffer_open_regardless_of_target() {
    validate_event_envelope(&buffer_open(EventId::new(1), Some(EntityRef::new(99)))).expect("with target");
    validate_event_envelope(&buffer_open(EventId::new(1), None)).expect("without target");
}

#[test]
fn event_subscribe_pattern_matches_only_on_payload_type_tag() {
    let edit = buffer_edit(EventId::for_testing(0), None, EntityRef::new(1));
    let open = buffer_open(EventId::for_testing(0), None);
    let save = buffer_save(EntityRef::new(1));
    let edit_pat = EventSubscribePattern::PayloadType("buffer-edit".into());
    assert!(edit_pat.matches(&edit));
    assert!(!edit_pat.matches(&open));
    let open_pat = EventSubscribePattern::PayloadType("buffer-open".into());
    assert!(open_pat.matches(&open));
    assert!(!open_pat.matches(&edit));
    let unknown = EventSubscribePattern::PayloadType("nonexistent-variant".into());
    assert!(!unknown.matches(&edit));
    assert!(!unknown.matches(&open));
    let edit_or_save = EventSubscribePattern::PayloadTypes(vec!["buffer-edit".into(), "buffer-save".into()]);
    assert!(edit_or_save.matches(&edit));
    assert!(edit_or_save.matches(&save));
    assert!(!edit_or_save.matches(&open));
    assert!(!EventSubscribePattern::PayloadTypes(vec![]).matches(&edit));
}

#[test]
fn event_payload_type_tags() {
    assert_eq!(buffer_open(EventId::new(1), None).payload.type_tag(), "buffer-open");
    assert_eq!(buffer_edit(EventId::new(1), None, EntityRef::new(1)).payload.type_tag(), "buffer-edit");
    assert_eq!(buffer_save(EntityRef::new(1)).payload.type_tag(), "buffer-save");
}

#[test]
fn fact_subscribe_pattern_matches_family_prefix() {
    let key = FactKey::new(EntityRef::new(1), "buffer/dirty");
    assert!(SubscribePattern::AllFacts.matches(&key));
    assert!(SubscribePattern::FamilyPrefix("buffer/".into()).matches(&key));
    assert!(!SubscribePattern::FamilyPrefix("project/".into()).matches(&key));
}

#[test]
fn counter_starts_at_zero() {
    let mut c = SequenceCounter::new();
    assert_eq!(c.peek(), 0);
    assert_eq!(c.next(), 0);
    assert_eq!(c.next(), 1);
    assert_eq!(c.peek(), 2);
}

#[test]
fn strictly_monotonic_for_n_calls() {
    let mut counter = SequenceCounter::new();
    let mut prev: Option<u64> = None;
    for _ in 0..1024 {
        let v = counter.next();
        if let Some(p) = prev {
            assert!(v > p, "sequence not strictly monotonic: {p} -> {v}");
        }
        prev = Some(v);
    }
}

#[test]
fn frame_is_length_prefixed_big_endian() {
    let frame = encode_frame(&[1, 2, 3]).unwrap();
    assert_eq!(frame, vec![0, 0, 0, 3, 1, 2, 3]);
    let big = vec![7u8; 300];
    let frame = encode_frame(&big).unwrap();
    assert_eq!(&frame[..4], &[0, 0, 1, 44]);
    assert_eq!(frame.len(), 304);
    assert_eq!(decode_frame_length([0, 0, 1, 44]).unwrap(), 300);
    assert_eq!(decode_frame_length([0, 1, 0, 0]).unwrap(), MAX_FRAME_SIZE);
}

#[test]
fn oversized_frames_are_refused_both_ways() {
    let too_big = vec![0u8; MAX_FRAME_SIZE + 1];
    match encode_frame(&too_big) {
        Err(CodecError::FrameTooLarge { size, max }) => {
            assert_eq!(size, MAX_FRAME_SIZE + 1);
            assert_eq!(max, MAX_FRAME_SIZE);
        }
        other => panic!("expected FrameTooLarge, got {other:?}"),
    }
    assert!(matches!(
        decode_frame_length([0, 1, 0, 1]),
        Err(CodecError::FrameTooLarge { size: 65537, max: 65536 })
    ));
    assert_eq!(CodecError::frame_too_large_message(70000, 65536), "frame too large: 70000 bytes (max 65536)");
    assert_eq!(MAX_EVENT_INGEST_FRAME, 65536 - 256);
}

#[test]
fn client_checks_handshake_and_subscribe_replies() {
    assert!(matches!(
        hello("weaver-cli"),
        BusMessage::Hello(HelloMsg { protocol_version: BUS_PROTOCOL_VERSION, ref client_kind }) if client_kind == "weaver-cli"
    ));
    assert!(check_handshake_reply(BusMessage::Lifecycle(LifecycleSignal::Ready)).is_ok());
    assert!(matches!(
        check_handshake_reply(BusMessage::Lifecycle(LifecycleSignal::Degraded)),
        Err(ClientError::HandshakeUnexpected { got: BusMessage::Lifecycle(LifecycleSignal::Degraded) })
    ));
    assert_eq!(check_subscribe_reply(BusMessage::SubscribeAck { sequence: 9 }).unwrap(), 9);
    assert!(matches!(
        check_subscribe_reply(BusMessage::StatusRequest),
        Err(ClientError::SubscribeAckUnexpected { .. })
    ));
}

#[test]
fn handshake_accepts_current_version_only() {
    let ok = handshake(BusMessage::Hello(HelloMsg {
        protocol_version: BUS_PROTOCOL_VERSION,
        client_kind: "tui".into(),
    }));
    assert_eq!(ok.unwrap(), "tui");
    match handshake(BusMessage::Hello(HelloMsg { protocol_version: 0x04, client_kind: "old".into() })) {
        Err((BusMessage::Error(e), ListenerError::VersionMismatch { client: 4, core: 5 })) => {
            assert_eq!(e.category, "version-mismatch");
            assert_eq!(e.detail, "bus protocol 0x05 required; received 0x04");
        }
        other => panic!("unexpected {other:?}"),
    }
    match handshake(BusMessage::StatusRequest) {
        Err((BusMessage::Error(e), ListenerError::HandshakeNotHello)) => {
            assert_eq!(e.category, "protocol");
            assert_eq!(e.detail, "expected Hello as first message");
        }
        other => panic!("unexpected {other:?}"),
    }
}

#[test]
fn missing_event_is_not_found_for_inspection() {
    let mut trace = TraceStore::new();
    assert_eq!(lookup_event_for_inspect(&trace, EventId::new(5)), Err(EventInspectionError::EventNotFound));
    trace.append(1, TracePayload::Event { event: buffer_open(EventId::new(5), None) });
    assert_eq!(lookup_event_for_inspect(&trace, EventId::new(5)), Ok(buffer_open(EventId::new(5), None)));
    assert_eq!(lookup_event_for_inspect(&trace, EventId::nil()), Err(EventInspectionError::EventNotFound));
}

#[test]
fn authority_claim_rejects_identity_replay_from_other_connection() {
    let identity = service_identity("git-watcher", 0xabc);
    let entity = EntityRef::new(1);
    let mut map = AuthorityMap::new();
    assert!(map.claim(1, &identity, "repo", entity).is_ok());
    assert!(map.claim(1, &identity, "repo", entity).is_ok());
    let err = map.claim(2, &identity, "repo", entity).expect_err("replay must be rejected");
    assert_eq!(err, identity);
    let other = service_identity("other-watcher", 0xdef);
    let err = map.claim(2, &other, "repo", entity).expect_err("other conn must be rejected");
    assert_eq!(err, identity);
    map.release_connection(1);
    assert!(map.claim(2, &other, "repo", entity).is_ok());
}

#[test]
fn process_event_with_no_behaviors_appends_to_trace() {
    let mut d = Dispatcher::new();
    let event = buffer_open(EventId::new(1), Some(EntityRef::new(1)));
    d.process_event(event);
    assert_eq!(d.trace().len(), 1);
    assert!(matches!(&d.trace().entries()[0].payload, TracePayload::Event { event } if event.id == EventId::new(1)));
}

struct MarkOpened {
    id: BehaviorId,
}

impl Behavior for MarkOpened {
    fn spec_id(&self) -> BehaviorId {
        self.id.clone()
    }

    fn spec_fire(&self, event: Event, now_ns: u64) -> BehaviorOutputs {
        self.fire(&event, BehaviorContext { now_ns })
    }

    fn id(&self) -> &BehaviorId {
        &self.id
    }

    fn fire(&self, event: &Event, ctx: BehaviorContext) -> BehaviorOutputs {
        let mut assertions = Vec::new();
        if let (EventPayload::BufferOpen { .. }, Some(target)) = (&event.payload, event.target) {
            assertions.push(Fact {
                key: FactKey::new(target, "buffer/opened"),
                value: FactValue::Bool(true),
                provenance: Provenance::new(ActorIdentity::behavior(self.id.clone()), ctx.now_ns, Some(event.id))
                    .unwrap(),
            });
        }
        BehaviorOutputs { assertions, retractions: Vec::new(), error: None }
    }
}

struct AlwaysFails {
    id: BehaviorId,
}

impl Behavior for AlwaysFails {
    fn spec_id(&self) -> BehaviorId {
        self.id.clone()
    }

    fn spec_fire(&self, event: Event, now_ns: u64) -> BehaviorOutputs {
        self.fire(&event, BehaviorContext { now_ns })
    }

    fn id(&self) -> &BehaviorId {
        &self.id
    }

    fn fire(&self, event: &Event, ctx: BehaviorContext) -> BehaviorOutputs {
        BehaviorOutputs {
            assertions: vec![Fact {
                key: FactKey::new(EntityRef::new(77), "never/asserted"),
                value: FactValue::Null,
                provenance: Provenance::new(ActorIdentity::behavior(self.id.clone()), ctx.now_ns, Some(event.id))
                    .unwrap(),
            }],
            retractions: Vec::new(),
            error: Some("boom".into()),
        }
    }
}

#[test]
fn behavior_firing_asserts_facts_and_records_provenance() {
    let mut d = Dispatcher::new();
    d.register(Box::new(MarkOpened { id: BehaviorId::new("core/mark-opened".into()) }));
    d.register(Box::new(AlwaysFails { id: BehaviorId::new("core/always-fails".into()) }));
    d.process_event(buffer_open(EventId::new(9), Some(EntityRef::new(3))));
    let key = FactKey::new(EntityRef::new(3), "buffer/opened");
    let stored = d.fact_store().query(&key).expect("behavior asserted the fact").clone();
    assert_eq!(stored.value, FactValue::Bool(true));
    assert!(d.fact_store().query(&FactKey::new(EntityRef::new(77), "never/asserted")).is_none());
    let (ev, bid, _) = d.trace().fact_inspection(&key).expect("inspection recorded");
    assert_eq!(ev, EventId::new(9));
    assert_eq!(bid, BehaviorId::new("core/mark-opened".into()));
    let fired_with_error = d.trace().entries().iter().any(|e| {
        matches!(&e.payload, TracePayload::BehaviorFired { error: Some(msg), asserted, .. } if msg == "boom" && asserted.is_empty())
    });
    assert!(fired_with_error);
}

#[test]
fn service_publish_claims_family_per_connection() {
    let mut d = Dispatcher::new();
    let a = service_identity("weaver-buffers", 1);
    let b = service_identity("other-service", 2);
    assert!(matches!(d.publish_from_service(1, service_fact(5, "buffer/dirty", &a, true)), ServicePublishOutcome::Asserted));
    assert!(matches!(d.publish_from_service(1, service_fact(5, "buffer/path", &a, true)), ServicePublishOutcome::Asserted));
    match d.publish_from_service(2, service_fact(5, "buffer/dirty", &b, false)) {
        ServicePublishOutcome::AuthorityConflict { family, entity, existing } => {
            assert_eq!(family, "buffer");
            assert_eq!(entity, EntityRef::new(5));
            assert_eq!(existing, a);
        }
        other => panic!("expected conflict, got {other:?}"),
    }
    match d.publish_from_service(1, service_fact(6, "buffer/dirty", &b, true)) {
        ServicePublishOutcome::IdentityDrift { bound, attempted } => {
            assert_eq!(bound, a);
            assert_eq!(attempted, b);
        }
        other => panic!("expected drift, got {other:?}"),
    }
    assert_eq!(
        d.fact_store().query(&FactKey::new(EntityRef::new(5), "buffer/dirty")).unwrap().value,
        FactValue::Bool(true)
    );
}

#[test]
fn service_retract_only_by_owner() {
    let mut d = Dispatcher::new();
    let a = service_identity("weaver-buffers", 1);
    let key = FactKey::new(EntityRef::new(5), "buffer/dirty");
    d.publish_from_service(1, service_fact(5, "buffer/dirty", &a, true));
    assert_eq!(d.retract_from_service(2, key.clone(), None), ServiceRetractOutcome::NotOwned);
    assert!(d.fact_store().query(&key).is_some());
    assert_eq!(d.retract_from_service(1, key.clone(), Some(EventId::new(3))), ServiceRetractOutcome::Retracted);
    assert!(d.fact_store().query(&key).is_none());
    assert_eq!(
        d.retract_from_service(1, FactKey::new(EntityRef::new(9), "buffer/dirty"), None),
        ServiceRetractOutcome::NotPresent
    );
}

#[test]
fn releasing_a_connection_retracts_its_facts_and_claims() {
    let mut d = Dispatcher::new();
    let a = service_identity("weaver-buffers", 1);
    let b = service_identity("other-service", 2);
    d.publish_from_service(1, service_fact(5, "buffer/dirty", &a, true));
    d.release_connection(1);
    assert!(d.fact_store().query(&FactKey::new(EntityRef::new(5), "buffer/dirty")).is_none());
    assert!(matches!(d.publish_from_service(2, service_fact(5, "buffer/dirty", &b, false)), ServicePublishOutcome::Asserted));
}

#[test]
fn handler_refuses_hello_and_server_only_frames() {
    let mut d = Dispatcher::new();
    let (out, outcome) = handle_client_message(
        1,
        BusMessage::Hello(HelloMsg { protocol_version: BUS_PROTOCOL_VERSION, client_kind: "x".into() }),
        &mut d,
    );
    assert!(matches!(outcome, HandlerOutcome::Unchanged));
    assert!(matches!(&out[..], [BusMessage::Error(e)] if e.category == "protocol" && e.detail == "Hello received after handshake"));
    let (out, _) = handle_client_message(1, BusMessage::SubscribeAck { sequence: 1 }, &mut d);
    assert!(matches!(&out[..], [BusMessage::Error(e)] if e.detail == "client sent a server-only message kind"));
    assert_eq!(d.trace().len(), 0);
}

#[test]
fn handler_ingests_valid_events_and_refuses_bad_envelopes() {
    let mut d = Dispatcher::new();
    let (out, _) = handle_client_message(1, BusMessage::Event(buffer_open(EventId::new(1), None)), &mut d);
    assert!(out.is_empty());
    assert_eq!(d.trace().len(), 1);
    let (out, _) = handle_client_message(1, BusMessage::Event(buffer_open(EventId::nil(), None)), &mut d);
    assert!(matches!(&out[..], [BusMessage::Error(e)] if e.category == "invalid-event-envelope"));
    assert_eq!(d.trace().len(), 1);
}

#[test]
fn handler_answers_inspection_and_status() {
    let mut d = Dispatcher::new();
    let a = service_identity("weaver-buffers", 1);
    let key = FactKey::new(EntityRef::new(5), "buffer/dirty");
    let (out, _) = handle_client_message(1, BusMessage::FactAssert(service_fact(5, "buffer/dirty", &a, true)), &mut d);
    assert!(out.is_empty());
    let (out, _) = handle_client_message(2, BusMessage::InspectRequest { request_id: 7, fact: key.clone() }, &mut d);
    match &out[..] {
        [BusMessage::InspectResponse { request_id: 7, result: Ok(detail) }] => {
            assert_eq!(detail.asserting_kind, "service");
            assert_eq!(detail.asserting_service.as_deref(), Some("weaver-buffers"));
            assert_eq!(detail.asserting_instance, Some(1));
            assert_eq!(detail.value, FactValue::Bool(true));
        }
        other => panic!("unexpected {other:?}"),
    }
    let missing = FactKey::new(EntityRef::new(6), "buffer/dirty");
    let (out, _) = handle_client_message(2, BusMessage::InspectRequest { request_id: 8, fact: missing }, &mut d);
    assert!(matches!(
        &out[..],
        [BusMessage::InspectResponse { request_id: 8, result: Err(InspectionError::FactNotFound) }]
    ));
    let (out, _) = handle_client_message(2, BusMessage::StatusRequest, &mut d);
    match &out[..] {
        [BusMessage::StatusResponse { lifecycle: LifecycleSignal::Ready, facts, .. }] => assert_eq!(facts.len(), 1),
        other => panic!("unexpected {other:?}"),
    }
}

#[test]
fn handler_subscription_replays_snapshot() {
    let mut d = Dispatcher::new();
    let a = service_identity("weaver-buffers", 1);
    handle_client_message(1, BusMessage::FactAssert(service_fact(5, "buffer/dirty", &a, true)), &mut d);
    handle_client_message(1, BusMessage::FactAssert(service_fact(5, "watcher/status", &a, true)), &mut d);
    let (out, outcome) =
        handle_client_message(2, BusMessage::Subscribe(SubscribePattern::FamilyPrefix("buffer/".into())), &mut d);
    assert!(matches!(outcome, HandlerOutcome::FactSubscription(_)));
    assert!(matches!(&out[0], BusMessage::SubscribeAck { .. }));
    assert_eq!(out.len(), 2);
    assert!(matches!(&out[1], BusMessage::FactAssert(f) if f.key.attribute == "buffer/dirty"));
}

#[test]
fn event_subscriptions_deliver_matching_events() {
    let mut subs = EventSubscriptions::new();
    let mut h = subs.subscribe(EventSubscribePattern::PayloadType("buffer-save".into()));
    assert_eq!(subs.subscriber_count(), 1);
    subs.broadcast(&buffer_open(EventId::new(1), None));
    assert!(h.rx.try_recv().is_err());
    subs.broadcast(&buffer_save(EntityRef::new(2)));
    assert!(matches!(h.rx.try_recv(), Ok(e) if e.payload == EventPayload::BufferSave { entity: EntityRef::new(2), version: 0 }));
    drop(h);
    subs.broadcast(&buffer_save(EntityRef::new(2)));
    assert_eq!(subs.subscriber_count(), 0);
}

#[test]
fn releasing_a_connection_traces_one_core_retraction_per_key() {
    let mut d = Dispatcher::new();
    let a = service_identity("weaver-buffers", 1);
    d.publish_from_service(1, service_fact(5, "buffer/dirty", &a, true));
    d.publish_from_service(1, service_fact(5, "buffer/open", &a, true));
    d.publish_from_service(1, service_fact(5, "buffer/dirty", &a, false));
    let before = d.trace().len();
    d.release_connection(1);
    let new: Vec<_> = d.trace().entries()[before..].iter().collect();
    assert_eq!(new.len(), 2);
    for e in &new {
        assert!(matches!(&e.payload, TracePayload::FactRetracted { provenance, .. }
            if provenance.source == ActorIdentity::Core && provenance.causal_parent.is_none()));
    }
}

#[test]
fn committing_a_failed_firing_records_only_the_firing() {
    let mut d = Dispatcher::new();
    let id = BehaviorId::new("core/x".into());
    let who = ActorIdentity::behavior(id.clone());
    let outputs = BehaviorOutputs {
        assertions: vec![service_fact(1, "x/y", &who, true)],
        retractions: Vec::new(),
        error: Some("bad".into()),
    };
    d.commit_firing(id.clone(), EventId::new(4), outputs);
    assert_eq!(d.trace().len(), 1);
    assert!(matches!(&d.trace().entries()[0].payload,
        TracePayload::BehaviorFired { behavior, triggering_event, asserted, retracted, error }
        if *behavior == id && *triggering_event == EventId::new(4) && asserted.is_empty() && retracted.is_empty()
            && error.as_deref() == Some("bad")));
    assert!(d.fact_store().query(&FactKey::new(EntityRef::new(1), "x/y")).is_none());
}

#[test]
fn committing_a_firing_records_each_assertion_then_the_firing() {
    let mut d = Dispatcher::new();
    let id = BehaviorId::new("core/x".into());
    let who = ActorIdentity::behavior(id.clone());
    let outputs = BehaviorOutputs {
        assertions: vec![service_fact(1, "x/a", &who, true), service_fact(2, "x/b", &who, false)],
        retractions: vec![(FactKey::new(EntityRef::new(1), "x/a"), Provenance::new(who.clone(), 5, None).unwrap())],
        error: None,
    };
    d.commit_firing(id.clone(), EventId::new(4), outputs);
    let es = d.trace().entries();
    assert_eq!(es.len(), 4);
    assert!(matches!(&es[0].payload, TracePayload::FactAsserted { fact } if fact.key.attribute == "x/a"));
    assert!(matches!(&es[1].payload, TracePayload::FactAsserted { fact } if fact.key.attribute == "x/b"));
    assert!(matches!(&es[2].payload, TracePayload::FactRetracted { key, .. } if key.attribute == "x/a"));
    assert!(matches!(&es[3].payload, TracePayload::BehaviorFired { asserted, retracted, error: None, .. }
        if asserted.len() == 2 && retracted.len() == 1));
    assert!(d.fact_store().query(&FactKey::new(EntityRef::new(1), "x/a")).is_none());
    assert!(d.fact_store().query(&FactKey::new(EntityRef::new(2), "x/b")).is_some());
}
