//! Resolve an inspection request against the fact space and the trace.
//!
//! The shape of the answer follows the live fact's provenance: a
//! behavior-authored fact names its behavior and triggering event; a
//! service-authored fact names the service instance and its causal
//! parent; any other actor is named by its kind only.

use vstd::prelude::*;
use crate::fact_space::{FactSpaceSnapshot, key_view};
use crate::provenance::{ActorIdentity, spec_kind_label};
use crate::trace::entry::{TraceEntry, TracePayload, TraceSequence};
use crate::trace::store::{TraceStore, asserting_behavior, fact_assert_index, lemma_fact_assert_index};
use crate::types::fact::{Fact, FactKey};
use crate::types::ids::EventId;
use crate::types::message::{InspectionDetail, InspectionError};

verus! {

/// The event a trace entry attributes its assert to: the asserted
/// fact's causal parent (the live fact's, should the entry hold
/// something else), or the nil id when there is none.
pub open spec fn assert_source_event(e: TraceEntry, live: Fact) -> EventId {
    let parent = match e.payload {
        TracePayload::FactAsserted { fact } => fact.provenance.causal_parent,
        _ => live.provenance.causal_parent,
    };
    match parent {
        Some(id) => id,
        None => EventId(0),
    }
}

/// The common fields of a detail built from the assert entry at `i`.
pub open spec fn detail_at(d: InspectionDetail, es: Seq<TraceEntry>, i: int, fact: Fact) -> bool {
    &&& d.asserted_at_ns == es[i].timestamp_ns
    &&& d.trace_sequence == i
    &&& d.value == fact.value
}

/// What inspecting `key` answers when its live fact is `fact` and the
/// trace is `es`.
pub open spec fn inspection_of(
    fact: Fact,
    es: Seq<TraceEntry>,
    key: FactKey,
    r: Result<InspectionDetail, InspectionError>,
) -> bool {
    match fact.provenance.source {
        ActorIdentity::Behavior { .. } => match (asserting_behavior(es, key), fact_assert_index(es, key)) {
            (Some((ev, b)), Some(i)) => r matches Ok(d) && detail_at(d, es, i, fact) && d.source_event == ev
                && d.asserting_kind@ == "behavior"@ && d.asserting_behavior == Some(b)
                && d.asserting_service is None && d.asserting_instance is None,
            _ => r == Err::<InspectionDetail, InspectionError>(InspectionError::NoProvenance),
        },
        ActorIdentity::Service { service_id, instance_id } => match fact_assert_index(es, key) {
            Some(i) => r matches Ok(d) && detail_at(d, es, i, fact) && d.source_event == assert_source_event(
                es[i],
                fact,
            ) && d.asserting_kind@ == "service"@ && d.asserting_behavior is None
                && d.asserting_service == Some(service_id) && d.asserting_instance == Some(instance_id),
            None => r == Err::<InspectionDetail, InspectionError>(InspectionError::NoProvenance),
        },
        other => match fact_assert_index(es, key) {
            Some(i) => r matches Ok(d) && detail_at(d, es, i, fact) && d.source_event == assert_source_event(
                es[i],
                fact,
            ) && d.asserting_kind@ == spec_kind_label(other) && d.asserting_behavior is None
                && d.asserting_service is None && d.asserting_instance is None,
            None => r == Err::<InspectionDetail, InspectionError>(InspectionError::NoProvenance),
        },
    }
}

/// The inspection of a live service-asserted fact answers with the
/// service, its instance, the asserting entry's time and position, and
/// the asserting entry's causal parent as source event (the nil id only
/// when that entry has no causal parent).
pub proof fn lemma_service_inspection(
    fact: Fact,
    es: Seq<TraceEntry>,
    key: FactKey,
    r: Result<InspectionDetail, InspectionError>,
    i: int,
    asserted: Fact,
)
    requires
        inspection_of(fact, es, key, r),
        fact.provenance.source is Service,
        fact_assert_index(es, key) == Some(i),
        es[i].payload == (TracePayload::FactAsserted { fact: asserted }),
    ensures
        r is Ok,
        r.unwrap().asserting_kind@ == "service"@,
        r.unwrap().asserting_behavior is None,
        r.unwrap().value == fact.value,
        r.unwrap().asserting_service == Some(fact.provenance.source->service_id),
        r.unwrap().asserting_instance == Some(fact.provenance.source->instance_id),
        r.unwrap().asserted_at_ns == es[i].timestamp_ns,
        r.unwrap().trace_sequence == i,
        asserted.provenance.causal_parent matches Some(e) ==> r.unwrap().source_event == e,
        asserted.provenance.causal_parent is None ==> r.unwrap().source_event == EventId(0),
{
}

/// Resolve the provenance of the fact currently asserted at `key`.
/// Pure: no I/O, no mutation.
pub fn inspect_fact(snapshot: &FactSpaceSnapshot, trace: &TraceStore, key: &FactKey) -> (r: Result<
    InspectionDetail,
    InspectionError,
>)
    ensures
        !snapshot.view_map().contains_key(key_view(*key)) ==> r == Err::<InspectionDetail, InspectionError>(
            InspectionError::FactNotFound,
        ),
        snapshot.view_map().contains_key(key_view(*key)) ==> inspection_of(
            snapshot.view_map()[key_view(*key)],
            trace.spec_entries(),
            *key,
            r,
        ),
{
    let fact = match snapshot.get(key) {
        Some(f) => f,
        None => return Err(InspectionError::FactNotFound),
    };
    proof {
        lemma_fact_assert_index(trace.spec_entries(), *key);
    }
    match &fact.provenance.source {
        ActorIdentity::Behavior { .. } => {
            let (source_event, asserting_behavior, trace_sequence) = match trace.fact_inspection(key) {
                Some(t) => t,
                None => return Err(InspectionError::NoProvenance),
            };
            let entry = match trace.get(trace_sequence) {
                Some(e) => e,
                None => return Err(InspectionError::NoProvenance),
            };
            Ok(
                InspectionDetail::behavior(
                    source_event,
                    asserting_behavior,
                    entry.timestamp_ns,
                    trace_sequence.as_u64(),
                    fact.value.clone(),
                ),
            )
        },
        ActorIdentity::Service { service_id, instance_id } => {
            let (asserted_at_ns, trace_sequence, source_event) = match resolve_live_assert(trace, key, fact) {
                Ok(t) => t,
                Err(e) => return Err(e),
            };
            Ok(
                InspectionDetail::service(
                    source_event,
                    service_id.clone(),
                    *instance_id,
                    asserted_at_ns,
                    trace_sequence.as_u64(),
                    fact.value.clone(),
                ),
            )
        },
        other => {
            let (asserted_at_ns, trace_sequence, source_event) = match resolve_live_assert(trace, key, fact) {
                Ok(t) => t,
                Err(e) => return Err(e),
            };
            Ok(
                InspectionDetail::kind_only(
                    other.kind_label(),
                    source_event,
                    asserted_at_ns,
                    trace_sequence.as_u64(),
                    fact.value.clone(),
                ),
            )
        },
    }
}

/// Timestamp, sequence and causal parent of the entry asserting the
/// live fact.
fn resolve_live_assert(trace: &TraceStore, key: &FactKey, fact: &Fact) -> (r: Result<
    (u64, TraceSequence, EventId),
    InspectionError,
>)
    ensures
        match fact_assert_index(trace.spec_entries(), *key) {
            Some(i) => r matches Ok((ts, q, ev)) && ts == trace.spec_entries()[i].timestamp_ns && q.0 == i
                && ev == assert_source_event(trace.spec_entries()[i], *fact),
            None => r == Err::<(u64, TraceSequence, EventId), InspectionError>(InspectionError::NoProvenance),
        },
{
    proof {
        lemma_fact_assert_index(trace.spec_entries(), *key);
    }
    let trace_sequence = match trace.find_fact_assert(key) {
        Some(s) => s,
        None => return Err(InspectionError::NoProvenance),
    };
    let entry = match trace.get(trace_sequence) {
        Some(e) => e,
        None => return Err(InspectionError::NoProvenance),
    };
    let source_event_opt = match &entry.payload {
        TracePayload::FactAsserted { fact: f } => f.provenance.causal_parent,
        _ => fact.provenance.causal_parent,
    };
    let source_event = match source_event_opt {
        Some(id) => id,
        None => EventId::nil(),
    };
    Ok((entry.timestamp_ns, trace_sequence, source_event))
}

} // verus!
