//! The decisions of one bus connection: the handshake, and what each
//! client message does to the dispatcher and which frames it answers
//! with. Reading and writing the socket is the caller's part.

use vstd::prelude::*;
use crate::behavior::dispatcher::{
    Dispatcher, ServicePublishOutcome, ServiceRetractOutcome, bound_after_publish, claims_after_publish, conflicts,
    drifts, elapsed, family_key, same_records,
};
use crate::bus::event_subscriptions::{EventSubscriptionHandle, offered_event};
use crate::fact_space::{FactEvent, SubscriptionHandle, facts_map, key_view, keys_unique};
use crate::fact_space::in_memory::{fact_offers, lemma_matching_subscriber_offered};
use crate::inspect::handler::{inspect_fact, inspection_of};
use crate::provenance::{
    ActorIdentity, identity_error, identity_valid, spec_identifying_label, spec_kind_label,
    spec_provenance_error_message,
};
use crate::text::{decimal, hex_fixed, push_decimal, push_hex_fixed};
use crate::trace::entry::TracePayload;
use crate::trace::store::{TraceStore, event_index, lemma_event_index};
use crate::types::event::{Event, EventPayload, same_event};
use crate::types::fact::Fact;
use crate::types::ids::EventId;
use crate::types::message::{
    BUS_PROTOCOL_VERSION, BusMessage, ErrorMsg, EventInspectionError, HelloMsg, InspectionError, LifecycleSignal,
    SubscribePattern, pattern_matches,
};

verus! {

/// Why a connection ended or could not be served.
#[derive(Debug)]
pub enum ListenerError {
    Io(std::io::Error),
    Codec(crate::bus::codec::CodecError),
    HandshakeNotHello,
    VersionMismatch { client: u8, core: u8 },
    RefuseToUnlinkNonSocket { path: String, kind: &'static str },
}

/// `m` is an error frame with this category and detail and no context.
pub open spec fn is_error_frame(m: BusMessage, category: Seq<char>, detail: Seq<char>) -> bool {
    m matches BusMessage::Error(e) && e.category@ == category && e.detail@ == detail && e.context is None
}

/// An error frame with no context.
fn error_frame(category: &str, detail: String) -> (m: BusMessage)
    ensures
        is_error_frame(m, category@, detail@),
{
    BusMessage::Error(ErrorMsg { category: category.to_owned(), detail, context: None })
}

/// `0x` and two lowercase hex digits.
pub open spec fn hex_byte(v: u8) -> Seq<char> {
    "0x"@ + hex_fixed(v as nat, 2)
}

/// Detail of the version-mismatch refusal.
pub open spec fn version_mismatch_detail(client: u8) -> Seq<char> {
    "bus protocol "@ + hex_byte(BUS_PROTOCOL_VERSION) + " required; received "@ + hex_byte(client)
}

/// Accept or refuse a connection's first frame. A `Hello` at this
/// build's protocol version is accepted and yields the client kind;
/// anything else is refused with the frame to send before closing and
/// the error the connection ends with.
pub fn handshake(first: BusMessage) -> (r: Result<String, (BusMessage, ListenerError)>)
    ensures
        match first {
            BusMessage::Hello(h) => if h.protocol_version == BUS_PROTOCOL_VERSION {
                r == Ok::<String, (BusMessage, ListenerError)>(h.client_kind)
            } else {
                r matches Err((m, ListenerError::VersionMismatch { client, core }))
                    && is_error_frame(m, "version-mismatch"@, version_mismatch_detail(h.protocol_version))
                    && client == h.protocol_version && core == BUS_PROTOCOL_VERSION
            },
            _ => r matches Err((m, ListenerError::HandshakeNotHello))
                && is_error_frame(m, "protocol"@, "expected Hello as first message"@),
        },
{
    match first {
        BusMessage::Hello(HelloMsg { protocol_version, client_kind }) => {
            if protocol_version != BUS_PROTOCOL_VERSION {
                let mut detail = String::from_str("bus protocol ");
                detail.append("0x");
                push_hex_fixed(&mut detail, BUS_PROTOCOL_VERSION as u128, 2);
                detail.append(" required; received ");
                detail.append("0x");
                push_hex_fixed(&mut detail, protocol_version as u128, 2);
                assert(detail@ =~= version_mismatch_detail(protocol_version));
                let m = error_frame("version-mismatch", detail);
                return Err((m, ListenerError::VersionMismatch { client: protocol_version, core: BUS_PROTOCOL_VERSION }));
            }
            Ok(client_kind)
        },
        _ => Err(
            (
                error_frame("protocol", String::from_str("expected Hello as first message")),
                ListenerError::HandshakeNotHello,
            ),
        ),
    }
}

/// Detail of an event whose id is the reserved nil value.
pub open spec fn zero_id_detail() -> Seq<char> {
    "EventId::ZERO is reserved as the 'no causal_parent' sentinel; producers must mint a non-zero id"@
}

/// Rendering of an optional target in an envelope error.
pub open spec fn target_text(t: Option<crate::types::entity_ref::EntityRef>) -> Seq<char> {
    match t {
        Some(e) => decimal(e.0 as nat),
        None => "None"@,
    }
}

/// Why an event's envelope is refused at ingest, if it is: a nil id,
/// or an edit whose target is not the entity its payload edits.
pub open spec fn envelope_error(e: Event) -> Option<Seq<char>> {
    if e.id.0 == 0 {
        Some(zero_id_detail())
    } else {
        match e.payload {
            EventPayload::BufferEdit { entity, .. } => if e.target == Some(entity) {
                None
            } else {
                Some(
                    "BufferEdit envelope/payload mismatch: target="@ + target_text(e.target) + " payload.entity="@
                        + decimal(entity.0 as nat),
                )
            },
            _ => None,
        }
    }
}

/// Check an event's envelope; the error is the detail to report.
pub fn validate_event_envelope(event: &Event) -> (r: Result<(), String>)
    ensures
        match envelope_error(*event) {
            None => r is Ok,
            Some(d) => r matches Err(s) && s@ == d,
        },
{
    if event.id.0 == 0 {
        return Err(
            String::from_str(
                "EventId::ZERO is reserved as the 'no causal_parent' sentinel; producers must mint a non-zero id",
            ),
        );
    }
    match &event.payload {
        EventPayload::BufferEdit { entity, .. } => {
            let agrees = match event.target {
                Some(t) => t.0 == entity.0,
                None => false,
            };
            if !agrees {
                let mut s = String::from_str("BufferEdit envelope/payload mismatch: target=");
                match event.target {
                    Some(t) => push_decimal(&mut s, t.0),
                    None => s.append("None"),
                }
                s.append(" payload.entity=");
                push_decimal(&mut s, entity.0);
                return Err(s);
            }
        },
        _ => {},
    }
    Ok(())
}

/// Look an event up in the trace for inspection. The nil id never
/// resolves (it stands for "no causal parent").
pub fn lookup_event_for_inspect(trace: &TraceStore, event_id: EventId) -> (r: Result<Event, EventInspectionError>)
    ensures
        event_id.0 == 0 ==> r == Err::<Event, EventInspectionError>(EventInspectionError::EventNotFound),
        event_id.0 != 0 ==> match event_index(trace.spec_entries(), event_id) {
            None => r == Err::<Event, EventInspectionError>(EventInspectionError::EventNotFound),
            Some(i) => r matches Ok(e) && (trace.spec_entries()[i].payload matches TracePayload::Event {
                event,
            } && same_event(e, event)),
        },
{
    if event_id.0 == 0 {
        return Err(EventInspectionError::EventNotFound);
    }
    proof {
        lemma_event_index(trace.spec_entries(), event_id);
    }
    let seq = match trace.find_event(event_id) {
        Some(s) => s,
        None => return Err(EventInspectionError::EventNotFound),
    };
    let entry = match trace.get(seq) {
        Some(e) => e,
        None => return Err(EventInspectionError::EventNotFound),
    };
    match &entry.payload {
        TracePayload::Event { event } => Ok(event.clone()),
        _ => Err(EventInspectionError::EventNotFound),
    }
}

/// The frame that forwards a fact notification to a subscriber.
pub fn forward_fact_event(evt: FactEvent) -> (m: BusMessage)
    ensures
        match evt {
            FactEvent::Asserted(f) => m == BusMessage::FactAssert(f),
            FactEvent::Retracted { key, provenance } => m == (BusMessage::FactRetract { key, provenance }),
        },
{
    match evt {
        FactEvent::Asserted(fact) => BusMessage::FactAssert(fact),
        FactEvent::Retracted { key, provenance } => BusMessage::FactRetract { key, provenance },
    }
}

/// What a handled message leaves the connection holding.
pub enum HandlerOutcome {
    Unchanged,
    FactSubscription(SubscriptionHandle),
    EventSubscription(EventSubscriptionHandle),
}

/// The snapshot replay of a fact subscription: a `FactAssert` for each
/// fact of `fs` that matches `p`, in order.
pub open spec fn replay(fs: Seq<Fact>, p: SubscribePattern) -> Seq<BusMessage>
    decreases fs.len(),
{
    if fs.len() == 0 {
        Seq::empty()
    } else if pattern_matches(p, fs.last().key) {
        replay(fs.drop_last(), p).push(BusMessage::FactAssert(fs.last()))
    } else {
        replay(fs.drop_last(), p)
    }
}

/// The snapshot replay of a subscription holds exactly the stored facts
/// the pattern matches: each of them appears as a `FactAssert`, every
/// frame is a `FactAssert` of a stored fact the pattern matches, and
/// with distinct stored keys no fact is replayed twice.
pub proof fn lemma_replay_is_matching_facts(fs: Seq<Fact>, p: SubscribePattern)
    ensures
        forall|i: int| 0 <= i < fs.len() && pattern_matches(p, fs[i].key) ==> #[trigger] replay(fs, p).contains(
            BusMessage::FactAssert(fs[i]),
        ),
        forall|k: int| 0 <= k < replay(fs, p).len() ==> (#[trigger] replay(fs, p)[k] matches BusMessage::FactAssert(f)
            && fs.contains(f) && pattern_matches(p, f.key)),
        keys_unique(fs) ==> replay(fs, p).no_duplicates(),
        replay(fs, p).len() <= fs.len(),
    decreases fs.len(),
{
    if fs.len() > 0 {
        let t = fs.drop_last();
        let x = fs.last();
        lemma_replay_is_matching_facts(t, p);
        let rt = replay(t, p);
        let r = replay(fs, p);
        assert forall|j: int| 0 <= j < t.len() implies #[trigger] t[j] == fs[j] by {}
        assert forall|i: int| 0 <= i < fs.len() && pattern_matches(p, fs[i].key) implies #[trigger] replay(fs, p).contains(
            BusMessage::FactAssert(fs[i]),
        ) by {
            if i == fs.len() - 1 {
                assert(r[rt.len() as int] == BusMessage::FactAssert(x));
            } else {
                assert(t[i] == fs[i]);
                assert(rt.contains(BusMessage::FactAssert(t[i])));
                let k = choose|k: int| 0 <= k < rt.len() && rt[k] == BusMessage::FactAssert(t[i]);
                if pattern_matches(p, x.key) {
                    assert(r[k] == rt[k]);
                }
            }
        }
        assert forall|k: int| 0 <= k < replay(fs, p).len() implies (#[trigger] replay(fs, p)[k] matches BusMessage::FactAssert(
            f,
        ) && fs.contains(f) && pattern_matches(p, f.key)) by {
            if k < rt.len() {
                assert(r[k] == rt[k]);
                assert(rt[k] matches BusMessage::FactAssert(f) && t.contains(f));
                if let BusMessage::FactAssert(f) = rt[k] {
                    let j = choose|j: int| 0 <= j < t.len() && t[j] == f;
                    assert(fs[j] == f);
                }
            } else {
                assert(fs[fs.len() - 1] == x);
            }
        }
        if keys_unique(fs) {
            assert(keys_unique(t)) by {
                assert forall|a: int, b: int| 0 <= a < t.len() && 0 <= b < t.len() && a != b implies key_view(
                    #[trigger] t[a].key,
                ) != key_view(#[trigger] t[b].key) by {
                    assert(t[a] == fs[a] && t[b] == fs[b]);
                }
            }
            if pattern_matches(p, x.key) {
                assert forall|a: int, b: int| 0 <= a < r.len() && 0 <= b < r.len() && a != b implies r[a] != r[b] by {
                    if a < rt.len() && b < rt.len() {
                        assert(r[a] == rt[a] && r[b] == rt[b]);
                    } else {
                        let m = if a < rt.len() { a } else { b };
                        assert(r[m] == rt[m]);
                        if let BusMessage::FactAssert(f) = rt[m] {
                            let j = choose|j: int| 0 <= j < t.len() && t[j] == f;
                            assert(fs[j] == f);
                            assert(key_view(fs[j].key) != key_view(fs[fs.len() - 1].key));
                        }
                    }
                }
            }
        }
    }
}

/// Detail of an authority conflict.
pub open spec fn conflict_detail(family: Seq<char>, entity: u64, holder: ActorIdentity) -> Seq<char> {
    family + "/* for entity "@ + decimal(entity as nat) + " already claimed by "@ + spec_identifying_label(holder)
}

/// Detail of an identity drift.
pub open spec fn drift_detail(bound: ActorIdentity, attempted: ActorIdentity) -> Seq<char> {
    "connection bound to "@ + spec_identifying_label(bound) + "; refusing FactAssert as "@
        + spec_identifying_label(attempted)
}

/// Detail of a refused retraction.
pub open spec fn not_owner_detail(entity: u64, attribute: Seq<char>) -> Seq<char> {
    "cannot retract fact ("@ + decimal(entity as nat) + ", "@ + attribute
        + "): claim held by a different connection"@
}

/// A message a client may not send.
pub open spec fn server_only(m: BusMessage) -> bool {
    m is SubscribeAck || m is InspectResponse || m is EventInspectResponse || m is Lifecycle || m is Error
        || m is StatusResponse
}

/// The dispatcher's records are unchanged and the connection holds
/// nothing new.
pub open spec fn inert(d0: &Dispatcher, d1: &Dispatcher, outcome: HandlerOutcome) -> bool {
    same_records(d1, d0) && outcome is Unchanged
}

/// A fact subscription receives what is published after it: when a
/// `Subscribe(p)` took the dispatcher from `d0` to `d1` and a successful
/// `FactAssert(fact)` with a key `p` matches then took it from `d1` to
/// `d2`, the new subscriber was offered the asserted fact.
pub proof fn lemma_subscription_offered_later_assert(
    d0: &Dispatcher,
    d1: &Dispatcher,
    d2: &Dispatcher,
    p: SubscribePattern,
    fact: Fact,
)
    requires
        d1.spec_fact_subscribers().len() == d0.spec_fact_subscribers().len() + 1,
        d1.spec_fact_subscribers().drop_last() == d0.spec_fact_subscribers(),
        d1.spec_fact_subscribers().last().pattern == p,
        d2.spec_fact_offers() == d1.spec_fact_offers() + fact_offers(d1.spec_fact_subscribers(), FactEvent::Asserted(fact)),
        pattern_matches(p, fact.key),
    ensures
        d2.spec_fact_offers().contains((d1.spec_fact_subscribers().last(), FactEvent::Asserted(fact))),
{
    let subs = d1.spec_fact_subscribers();
    let j = subs.len() - 1;
    lemma_matching_subscriber_offered(subs, FactEvent::Asserted(fact), j);
    let o = fact_offers(subs, FactEvent::Asserted(fact));
    let k = choose|k: int| 0 <= k < o.len() && o[k] == (subs[j], FactEvent::Asserted(fact));
    assert(d2.spec_fact_offers()[d1.spec_fact_offers().len() + k] == o[k]);
}

/// Handle one client message after the handshake: apply it to the
/// dispatcher and return the frames to write back, in order, and what
/// the connection now holds.
#[verifier::rlimit(50)]
pub fn handle_client_message(conn_id: u64, msg: BusMessage, dispatcher: &mut Dispatcher) -> (r: (
    Vec<BusMessage>,
    HandlerOutcome,
))
    ensures
        old(dispatcher).spec_trace().is_prefix_of(final(dispatcher).spec_trace()),
        msg is Hello ==> (r.0@.len() == 1 && is_error_frame(r.0@[0], "protocol"@, "Hello received after handshake"@)
            && inert(&*old(dispatcher), &*final(dispatcher), r.1)),
        server_only(msg) ==> (r.0@.len() == 1 && is_error_frame(
            r.0@[0],
            "protocol"@,
            "client sent a server-only message kind"@,
        ) && inert(&*old(dispatcher), &*final(dispatcher), r.1)),
        msg matches BusMessage::Event(event) ==> (r.1 is Unchanged && if !identity_valid(event.provenance.source) {
            r.0@.len() == 1 && (exists|e: crate::provenance::ProvenanceError| identity_error(event.provenance.source, e)
                && is_error_frame(r.0@[0], "invalid-identity"@, "event provenance rejected: "@
                + spec_provenance_error_message(e))) && same_records(&*final(dispatcher), &*old(dispatcher))
        } else if envelope_error(event) is Some {
            r.0@.len() == 1 && is_error_frame(r.0@[0], "invalid-event-envelope"@, envelope_error(event).unwrap())
                && same_records(&*final(dispatcher), &*old(dispatcher))
        } else {
            r.0@.len() == 0 && final(dispatcher).spec_trace().len() > old(dispatcher).spec_trace().len()
                && (final(dispatcher).spec_trace()[old(dispatcher).spec_trace().len() as int].payload matches TracePayload::Event {
                event: e,
            } && same_event(e, event)) && final(dispatcher).spec_claims() == old(dispatcher).spec_claims()
                && final(dispatcher).spec_owned() == old(dispatcher).spec_owned()
                && final(dispatcher).spec_bound() == old(dispatcher).spec_bound()
                && offered_event(
                old(dispatcher).spec_event_offers(),
                final(dispatcher).spec_event_offers(),
                old(dispatcher).spec_event_subscribers(),
                event,
            )
        }),
        msg matches BusMessage::Subscribe(p) ==> (r.1 is FactSubscription && same_records(
            &*final(dispatcher),
            &*old(dispatcher),
        ) && r.0@.len() >= 1 && r.0@[0] == (BusMessage::SubscribeAck { sequence: 0 }) && exists|fs: Seq<Fact>|
            keys_unique(fs) && facts_map(fs) == old(dispatcher).spec_facts() && r.0@.drop_first() == replay(fs, p))
            && final(dispatcher).spec_fact_subscribers().len() == old(dispatcher).spec_fact_subscribers().len() + 1
            && final(dispatcher).spec_fact_subscribers().drop_last() == old(dispatcher).spec_fact_subscribers()
            && final(dispatcher).spec_fact_subscribers().last().pattern == p,
        msg matches BusMessage::InspectRequest { request_id, fact } ==> (r.0@.len() == 1 && inert(
            &*old(dispatcher),
            &*final(dispatcher),
            r.1,
        ) && (r.0@[0] matches BusMessage::InspectResponse { request_id: rid, result } && rid == request_id && if old(
            dispatcher,
        ).spec_facts().contains_key(key_view(fact)) {
            inspection_of(old(dispatcher).spec_facts()[key_view(fact)], old(dispatcher).spec_trace(), fact, result)
        } else {
            result == Err::<crate::types::message::InspectionDetail, InspectionError>(InspectionError::FactNotFound)
        })),
        msg matches BusMessage::EventInspectRequest { request_id, event_id } ==> (r.0@.len() == 1 && inert(
            &*old(dispatcher),
            &*final(dispatcher),
            r.1,
        ) && (r.0@[0] matches BusMessage::EventInspectResponse { request_id: rid, result } && rid == request_id && if event_id.0
            == 0 {
            result == Err::<Event, EventInspectionError>(EventInspectionError::EventNotFound)
        } else {
            match event_index(old(dispatcher).spec_trace(), event_id) {
                None => result == Err::<Event, EventInspectionError>(EventInspectionError::EventNotFound),
                Some(i) => result matches Ok(e) && (old(dispatcher).spec_trace()[i].payload matches TracePayload::Event {
                    event,
                } && same_event(e, event)),
            }
        })),
        msg is StatusRequest ==> (r.0@.len() == 1 && inert(&*old(dispatcher), &*final(dispatcher), r.1)
            && (r.0@[0] matches BusMessage::StatusResponse { lifecycle, facts, uptime_ns } && lifecycle == LifecycleSignal::Ready
            && keys_unique(facts@) && facts_map(facts@) == old(dispatcher).spec_facts()
            && exists|now: u64| uptime_ns == elapsed(now, old(dispatcher).spec_started_at()))),
        msg matches BusMessage::FactAssert(fact) ==> (r.1 is Unchanged && if !(fact.provenance.source is Service) {
            r.0@.len() == 1 && is_error_frame(
                r.0@[0],
                "unauthorized"@,
                "bus FactAssert requires ActorIdentity::Service provenance; got "@ + spec_kind_label(
                    fact.provenance.source,
                ),
            ) && same_records(&*final(dispatcher), &*old(dispatcher))
        } else if !identity_valid(fact.provenance.source) {
            r.0@.len() == 1 && (exists|e: crate::provenance::ProvenanceError| identity_error(fact.provenance.source, e)
                && is_error_frame(r.0@[0], "invalid-identity"@, "service identity rejected: "@
                + spec_provenance_error_message(e))) && same_records(&*final(dispatcher), &*old(dispatcher))
        } else if drifts(old(dispatcher).spec_bound(), conn_id, fact.provenance.source) {
            r.0@.len() == 1 && is_error_frame(
                r.0@[0],
                "identity-drift"@,
                drift_detail(old(dispatcher).spec_bound()[conn_id], fact.provenance.source),
            ) && same_records(&*final(dispatcher), &*old(dispatcher))
        } else if conflicts(old(dispatcher).spec_claims(), conn_id, fact.key) {
            r.0@.len() == 1 && is_error_frame(
                r.0@[0],
                "authority-conflict"@,
                conflict_detail(
                    family_key(fact.key).0,
                    fact.key.entity.0,
                    old(dispatcher).spec_claims()[family_key(fact.key)].1,
                ),
            ) && final(dispatcher).spec_facts() == old(dispatcher).spec_facts()
                && final(dispatcher).spec_trace() == old(dispatcher).spec_trace()
                && final(dispatcher).spec_claims() == old(dispatcher).spec_claims()
                && final(dispatcher).spec_owned() == old(dispatcher).spec_owned()
                && final(dispatcher).spec_bound() == bound_after_publish(old(dispatcher).spec_bound(), conn_id, fact)
        } else {
            r.0@.len() == 0 && final(dispatcher).spec_facts() == old(dispatcher).spec_facts().insert(
                key_view(fact.key),
                fact,
            ) && final(dispatcher).spec_owned() == old(dispatcher).spec_owned().insert(
                (conn_id, key_view(fact.key)),
            ) && final(dispatcher).spec_trace().len() == old(dispatcher).spec_trace().len() + 1
                && final(dispatcher).spec_trace().last().payload == (TracePayload::FactAsserted { fact })
                && final(dispatcher).spec_claims() == claims_after_publish(old(dispatcher).spec_claims(), conn_id, fact)
                && final(dispatcher).spec_bound() == bound_after_publish(old(dispatcher).spec_bound(), conn_id, fact)
                && final(dispatcher).spec_fact_offers() == old(dispatcher).spec_fact_offers() + fact_offers(
                old(dispatcher).spec_fact_subscribers(),
                FactEvent::Asserted(fact),
            )
        }),
        msg matches BusMessage::FactRetract { key, provenance } ==> (r.1 is Unchanged
            && final(dispatcher).spec_claims() == old(dispatcher).spec_claims() && if old(dispatcher).spec_owned().contains(
            (conn_id, key_view(key)),
        ) {
            r.0@.len() == 0 && final(dispatcher).spec_facts() == old(dispatcher).spec_facts().remove(key_view(key))
                && (final(dispatcher).spec_trace().last().payload matches TracePayload::FactRetracted {
                provenance: p,
                ..
            } && p.causal_parent == provenance.causal_parent)
        } else if old(dispatcher).spec_facts().contains_key(key_view(key)) {
            r.0@.len() == 1 && is_error_frame(r.0@[0], "not-owner"@, not_owner_detail(key.entity.0, key.attribute@))
                && same_records(&*final(dispatcher), &*old(dispatcher))
        } else {
            r.0@.len() == 0 && same_records(&*final(dispatcher), &*old(dispatcher))
        }),
        msg matches BusMessage::SubscribeEvents(p) ==> (r.0@ == seq![BusMessage::SubscribeAck { sequence: 0 }]
            && r.1 is EventSubscription && same_records(&*final(dispatcher), &*old(dispatcher))
            && final(dispatcher).spec_event_subscribers().len() == old(dispatcher).spec_event_subscribers().len() + 1
            && final(dispatcher).spec_event_subscribers().drop_last() == old(dispatcher).spec_event_subscribers()
            && final(dispatcher).spec_event_subscribers().last().pattern == p),
{
    let ghost d0 = *dispatcher;
    let ghost t0 = dispatcher.spec_trace();
    assert(t0.is_prefix_of(t0));
    let mut out: Vec<BusMessage> = Vec::new();
    match msg {
        BusMessage::Hello(_) => {
            out.push(error_frame("protocol", String::from_str("Hello received after handshake")));
            (out, HandlerOutcome::Unchanged)
        },
        BusMessage::Event(event) => {
            match event.provenance.source.validate() {
                Err(e) => {
                    let mut detail = String::from_str("event provenance rejected: ");
                    detail.append(e.to_display_string().as_str());
                    out.push(error_frame("invalid-identity", detail));
                    return (out, HandlerOutcome::Unchanged);
                },
                Ok(()) => {},
            }
            match validate_event_envelope(&event) {
                Err(detail) => {
                    out.push(error_frame("invalid-event-envelope", detail));
                    return (out, HandlerOutcome::Unchanged);
                },
                Ok(()) => {},
            }
            dispatcher.process_event(event);
            (out, HandlerOutcome::Unchanged)
        },
        BusMessage::Subscribe(pattern) => {
            let matcher = pattern.clone();
            let (snapshot, handle) = dispatcher.subscribe_facts(pattern);
            out.push(BusMessage::SubscribeAck { sequence: 0 });
            let facts = snapshot.values();
            let ghost fs = facts@;
            let mut i: usize = 0;
            while i < facts.len()
                invariant
                    fs == facts@,
                    i <= fs.len(),
                    out@.len() >= 1,
                    out@[0] == (BusMessage::SubscribeAck { sequence: 0 }),
                    out@.drop_first() == replay(fs.subrange(0, i as int), matcher),
                decreases fs.len() - i,
            {
                proof {
                    assert(fs.subrange(0, i + 1).drop_last() =~= fs.subrange(0, i as int));
                    assert(fs.subrange(0, i + 1).last() == fs[i as int]);
                }
                if matcher.matches(&facts[i].key) {
                    out.push(BusMessage::FactAssert(facts[i].clone()));
                    assert(out@.drop_first() =~= replay(fs.subrange(0, i as int), matcher).push(
                        BusMessage::FactAssert(fs[i as int]),
                    ));
                }
                i = i + 1;
            }
            assert(fs.subrange(0, i as int) =~= fs);
            (out, HandlerOutcome::FactSubscription(handle))
        },
        BusMessage::InspectRequest { request_id, fact } => {
            let snapshot = dispatcher.fact_store().snapshot();
            let result = inspect_fact(&snapshot, dispatcher.trace(), &fact);
            out.push(BusMessage::InspectResponse { request_id, result });
            (out, HandlerOutcome::Unchanged)
        },
        BusMessage::EventInspectRequest { request_id, event_id } => {
            let result = lookup_event_for_inspect(dispatcher.trace(), event_id);
            out.push(BusMessage::EventInspectResponse { request_id, result });
            (out, HandlerOutcome::Unchanged)
        },
        BusMessage::StatusRequest => {
            let snapshot = dispatcher.fact_store().snapshot();
            let values = snapshot.values();
            let mut facts: Vec<Fact> = Vec::new();
            let mut i: usize = 0;
            while i < values.len()
                invariant
                    i <= values@.len(),
                    facts@ == values@.subrange(0, i as int),
                decreases values@.len() - i,
            {
                facts.push(values[i].clone());
                i = i + 1;
                assert(facts@ =~= values@.subrange(0, i as int));
            }
            assert(facts@ =~= values@);
            let uptime_ns = dispatcher.uptime_ns();
            out.push(BusMessage::StatusResponse { lifecycle: LifecycleSignal::Ready, uptime_ns, facts });
            (out, HandlerOutcome::Unchanged)
        },
        BusMessage::FactAssert(fact) => {
            if !matches!(fact.provenance.source, ActorIdentity::Service { .. }) {
                let mut detail = String::from_str("bus FactAssert requires ActorIdentity::Service provenance; got ");
                detail.append(fact.provenance.source.kind_label());
                out.push(error_frame("unauthorized", detail));
                return (out, HandlerOutcome::Unchanged);
            }
            match fact.provenance.source.validate() {
                Err(e) => {
                    let mut detail = String::from_str("service identity rejected: ");
                    detail.append(e.to_display_string().as_str());
                    out.push(error_frame("invalid-identity", detail));
                    return (out, HandlerOutcome::Unchanged);
                },
                Ok(()) => {},
            }
            match dispatcher.publish_from_service(conn_id, fact) {
                ServicePublishOutcome::Asserted => {},
                ServicePublishOutcome::AuthorityConflict { family, entity, existing } => {
                    let mut detail = family;
                    detail.append("/* for entity ");
                    push_decimal(&mut detail, entity.0);
                    detail.append(" already claimed by ");
                    detail.append(existing.identifying_label().as_str());
                    out.push(error_frame("authority-conflict", detail));
                },
                ServicePublishOutcome::IdentityDrift { bound, attempted } => {
                    let mut detail = String::from_str("connection bound to ");
                    detail.append(bound.identifying_label().as_str());
                    detail.append("; refusing FactAssert as ");
                    detail.append(attempted.identifying_label().as_str());
                    out.push(error_frame("identity-drift", detail));
                },
            }
            (out, HandlerOutcome::Unchanged)
        },
        BusMessage::FactRetract { key, provenance } => {
            let entity = key.entity.0;
            let attribute = key.attribute.clone();
            let outcome = dispatcher.retract_from_service(conn_id, key, provenance.causal_parent);
            match outcome {
                ServiceRetractOutcome::NotOwned => {
                    let mut detail = String::from_str("cannot retract fact (");
                    push_decimal(&mut detail, entity);
                    detail.append(", ");
                    detail.append(attribute.as_str());
                    detail.append("): claim held by a different connection");
                    out.push(error_frame("not-owner", detail));
                },
                _ => {},
            }
            (out, HandlerOutcome::Unchanged)
        },
        BusMessage::SubscribeAck { .. } | BusMessage::InspectResponse { .. } | BusMessage::EventInspectResponse {
            ..
        } | BusMessage::Lifecycle(_) | BusMessage::Error(_) | BusMessage::StatusResponse { .. } => {
            out.push(error_frame("protocol", String::from_str("client sent a server-only message kind")));
            (out, HandlerOutcome::Unchanged)
        },
        BusMessage::SubscribeEvents(pattern) => {
            let handle = dispatcher.subscribe_events(pattern);
            out.push(BusMessage::SubscribeAck { sequence: 0 });
            (out, HandlerOutcome::EventSubscription(handle))
        },
    }
}

} // verus!
