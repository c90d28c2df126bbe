//! Bus messages — every message kind carried on the bus.

use vstd::prelude::*;
use crate::provenance::Provenance;
use crate::text::{starts_with, str_eq};
use crate::types::event::{Event, spec_type_tag};
use crate::types::fact::{Fact, FactKey, FactValue};
use crate::types::ids::{BehaviorId, EventId};

verus! {

/// Bus protocol version spoken by this build.
pub const BUS_PROTOCOL_VERSION: u8 = 0x05;

/// Semver-style rendering of [`BUS_PROTOCOL_VERSION`].
pub const BUS_PROTOCOL_VERSION_STR: &'static str = "0.5.0";

/// The top-level enum of bus messages.
#[allow(inconsistent_fields)]
#[derive(Debug, PartialEq, Eq)]
pub enum BusMessage {
    Hello(HelloMsg),
    Event(Event),
    FactAssert(Fact),
    FactRetract { key: FactKey, provenance: Provenance },
    Subscribe(SubscribePattern),
    SubscribeAck { sequence: u64 },
    /// Subscribe to events whose payload matches the pattern (last
    /// subscription on a connection wins).
    SubscribeEvents(EventSubscribePattern),
    InspectRequest { request_id: u64, fact: FactKey },
    InspectResponse { request_id: u64, result: Result<InspectionDetail, InspectionError> },
    /// Look up an event in the trace by id.
    EventInspectRequest { request_id: u64, event_id: EventId },
    EventInspectResponse { request_id: u64, result: Result<Event, EventInspectionError> },
    Lifecycle(LifecycleSignal),
    Error(ErrorMsg),
    /// One-shot snapshot request.
    StatusRequest,
    /// Response to a status request: lifecycle, uptime and every fact.
    StatusResponse { lifecycle: LifecycleSignal, uptime_ns: u64, facts: Vec<Fact> },
}

#[derive(Debug, PartialEq, Eq)]
pub struct HelloMsg {
    pub protocol_version: u8,
    pub client_kind: String,
}

/// Fact-subscription pattern.
#[derive(Debug, PartialEq, Eq)]
pub enum SubscribePattern {
    AllFacts,
    FamilyPrefix(String),
}

/// The fact key belongs to the subscription.
pub open spec fn pattern_matches(p: SubscribePattern, key: FactKey) -> bool {
    match p {
        SubscribePattern::AllFacts => true,
        SubscribePattern::FamilyPrefix(prefix) => prefix@.is_prefix_of(key.attribute@),
    }
}

impl Clone for SubscribePattern {
    fn clone(&self) -> (r: Self)
        ensures
            r == *self,
    {
        match self {
            SubscribePattern::AllFacts => SubscribePattern::AllFacts,
            SubscribePattern::FamilyPrefix(p) => SubscribePattern::FamilyPrefix(p.clone()),
        }
    }
}

impl SubscribePattern {
    /// `AllFacts` matches every key; `FamilyPrefix(p)` matches keys whose
    /// attribute starts with `p`.
    pub fn matches(&self, key: &FactKey) -> (r: bool)
        ensures
            r == pattern_matches(*self, *key),
    {
        match self {
            SubscribePattern::AllFacts => true,
            SubscribePattern::FamilyPrefix(prefix) => starts_with(key.attribute.as_str(), prefix.as_str()),
        }
    }
}

/// Event-subscription pattern, matched against a payload's type tag.
#[derive(Debug, PartialEq, Eq)]
pub enum EventSubscribePattern {
    /// Events whose payload tag equals this string.
    PayloadType(String),
    /// Events whose payload tag is one of these strings.
    PayloadTypes(Vec<String>),
}

/// The event belongs to the subscription.
pub open spec fn event_pattern_matches(p: EventSubscribePattern, e: Event) -> bool {
    match p {
        EventSubscribePattern::PayloadType(t) => t@ == spec_type_tag(e.payload),
        EventSubscribePattern::PayloadTypes(ts) => exists|i: int|
            0 <= i < ts@.len() && (#[trigger] ts@[i])@ == spec_type_tag(e.payload),
    }
}

impl EventSubscribePattern {
    /// Whether the event's payload tag is selected by this pattern.
    pub fn matches(&self, event: &Event) -> (r: bool)
        ensures
            r == event_pattern_matches(*self, *event),
    {
        let tag = event.payload.type_tag();
        match self {
            EventSubscribePattern::PayloadType(t) => str_eq(t.as_str(), tag),
            EventSubscribePattern::PayloadTypes(ts) => any_equals(ts, tag),
        }
    }
}

/// Whether some string of `ts` equals `tag`.
fn any_equals(ts: &Vec<String>, tag: &str) -> (r: bool)
    ensures
        r == exists|i: int| 0 <= i < ts@.len() && (#[trigger] ts@[i])@ == tag@,
{
    let mut i: usize = 0;
    while i < ts.len()
        invariant
            i <= ts@.len(),
            forall|j: int| 0 <= j < i ==> (#[trigger] ts@[j])@ != tag@,
        decreases ts@.len() - i,
    {
        if str_eq(ts[i].as_str(), tag) {
            assert((ts@[i as int])@ == tag@);
            return true;
        }
        i = i + 1;
    }
    false
}

/// Service-lifecycle signal.
#[derive(Clone, Copy, Debug, PartialEq, Eq, Structural)]
pub enum LifecycleSignal {
    Started,
    Ready,
    Degraded,
    Unavailable,
    Restarting,
    Stopped,
}

/// Kebab-case wire name of a lifecycle signal.
pub open spec fn spec_lifecycle_name(l: LifecycleSignal) -> Seq<char> {
    match l {
        LifecycleSignal::Started => "started"@,
        LifecycleSignal::Ready => "ready"@,
        LifecycleSignal::Degraded => "degraded"@,
        LifecycleSignal::Unavailable => "unavailable"@,
        LifecycleSignal::Restarting => "restarting"@,
        LifecycleSignal::Stopped => "stopped"@,
    }
}

impl LifecycleSignal {
    /// Kebab-case wire name.
    pub fn as_str(&self) -> (r: &'static str)
        ensures
            r@ == spec_lifecycle_name(*self),
    {
        match self {
            LifecycleSignal::Started => "started",
            LifecycleSignal::Ready => "ready",
            LifecycleSignal::Degraded => "degraded",
            LifecycleSignal::Unavailable => "unavailable",
            LifecycleSignal::Restarting => "restarting",
            LifecycleSignal::Stopped => "stopped",
        }
    }
}

#[derive(Debug, PartialEq, Eq)]
pub struct ErrorMsg {
    pub category: String,
    pub detail: String,
    pub context: Option<String>,
}

/// Provenance detail answered to an inspection request. Exactly one
/// `asserting_*` group is populated, matching `asserting_kind`.
#[derive(Debug, PartialEq, Eq)]
pub struct InspectionDetail {
    pub source_event: EventId,
    pub asserting_kind: String,
    pub asserting_behavior: Option<BehaviorId>,
    pub asserting_service: Option<String>,
    /// The 128 bits of the asserting service's instance UUID.
    pub asserting_instance: Option<u128>,
    pub asserted_at_ns: u64,
    pub trace_sequence: u64,
    /// The fact's value at inspection time.
    pub value: FactValue,
}

/// The asserting kind to record when a response omits it: `behavior`
/// if a behavior is named, `service` if a service is, `core` otherwise.
pub open spec fn inferred_kind(kind: Option<String>, has_behavior: bool, has_service: bool) -> Seq<char> {
    match kind {
        Some(k) => k@,
        None => if has_behavior {
            "behavior"@
        } else if has_service {
            "service"@
        } else {
            "core"@
        },
    }
}

impl Clone for InspectionDetail {
    fn clone(&self) -> (r: Self)
        ensures
            r == *self,
    {
        let asserting_behavior = match &self.asserting_behavior {
            Some(b) => Some(b.clone()),
            None => None,
        };
        let asserting_service = match &self.asserting_service {
            Some(s) => Some(s.clone()),
            None => None,
        };
        InspectionDetail {
            source_event: self.source_event,
            asserting_kind: self.asserting_kind.clone(),
            asserting_behavior,
            asserting_service,
            asserting_instance: self.asserting_instance,
            asserted_at_ns: self.asserted_at_ns,
            trace_sequence: self.trace_sequence,
            value: self.value.clone(),
        }
    }
}

impl InspectionDetail {
    /// Detail of a behavior-authored fact.
    pub fn behavior(
        source_event: EventId,
        asserting_behavior: BehaviorId,
        asserted_at_ns: u64,
        trace_sequence: u64,
        value: FactValue,
    ) -> (r: Self)
        ensures
            r.source_event == source_event,
            r.asserting_kind@ == "behavior"@,
            r.asserting_behavior == Some(asserting_behavior),
            r.asserting_service is None,
            r.asserting_instance is None,
            r.asserted_at_ns == asserted_at_ns,
            r.trace_sequence == trace_sequence,
            r.value == value,
    {
        InspectionDetail {
            source_event,
            asserting_kind: String::from_str("behavior"),
            asserting_behavior: Some(asserting_behavior),
            asserting_service: None,
            asserting_instance: None,
            asserted_at_ns,
            trace_sequence,
            value,
        }
    }

    /// Detail of a service-authored fact.
    pub fn service(
        source_event: EventId,
        service_id: String,
        instance_id: u128,
        asserted_at_ns: u64,
        trace_sequence: u64,
        value: FactValue,
    ) -> (r: Self)
        ensures
            r.source_event == source_event,
            r.asserting_kind@ == "service"@,
            r.asserting_behavior is None,
            r.asserting_service == Some(service_id),
            r.asserting_instance == Some(instance_id),
            r.asserted_at_ns == asserted_at_ns,
            r.trace_sequence == trace_sequence,
            r.value == value,
    {
        InspectionDetail {
            source_event,
            asserting_kind: String::from_str("service"),
            asserting_behavior: None,
            asserting_service: Some(service_id),
            asserting_instance: Some(instance_id),
            asserted_at_ns,
            trace_sequence,
            value,
        }
    }

    /// Detail of a fact whose actor kind carries no separately rendered
    /// identifier: only the kind label is recorded.
    pub fn kind_only(
        kind: &str,
        source_event: EventId,
        asserted_at_ns: u64,
        trace_sequence: u64,
        value: FactValue,
    ) -> (r: Self)
        ensures
            r.source_event == source_event,
            r.asserting_kind@ == kind@,
            r.asserting_behavior is None,
            r.asserting_service is None,
            r.asserting_instance is None,
            r.asserted_at_ns == asserted_at_ns,
            r.trace_sequence == trace_sequence,
            r.value == value,
    {
        InspectionDetail {
            source_event,
            asserting_kind: kind.to_owned(),
            asserting_behavior: None,
            asserting_service: None,
            asserting_instance: None,
            asserted_at_ns,
            trace_sequence,
            value,
        }
    }

    /// Rebuild a detail from its wire fields, inferring the asserting
    /// kind when an older peer omitted it.
    pub fn from_wire(
        source_event: EventId,
        asserting_kind: Option<String>,
        asserting_behavior: Option<BehaviorId>,
        asserting_service: Option<String>,
        asserting_instance: Option<u128>,
        asserted_at_ns: u64,
        trace_sequence: u64,
        value: FactValue,
    ) -> (r: Self)
        ensures
            r.asserting_kind@ == inferred_kind(
                asserting_kind,
                asserting_behavior is Some,
                asserting_service is Some,
            ),
            r.source_event == source_event,
            r.asserting_behavior == asserting_behavior,
            r.asserting_service == asserting_service,
            r.asserting_instance == asserting_instance,
            r.asserted_at_ns == asserted_at_ns,
            r.trace_sequence == trace_sequence,
            r.value == value,
    {
        let kind = match asserting_kind {
            Some(k) => k,
            None => if asserting_behavior.is_some() {
                String::from_str("behavior")
            } else if asserting_service.is_some() {
                String::from_str("service")
            } else {
                String::from_str("core")
            },
        };
        InspectionDetail {
            source_event,
            asserting_kind: kind,
            asserting_behavior,
            asserting_service,
            asserting_instance,
            asserted_at_ns,
            trace_sequence,
            value,
        }
    }
}

/// Why a fact inspection failed.
#[derive(Clone, Copy, Debug, PartialEq, Eq, Structural)]
pub enum InspectionError {
    FactNotFound,
    NoProvenance,
}

/// Why an event inspection failed.
#[derive(Clone, Copy, Debug, PartialEq, Eq, Structural)]
pub enum EventInspectionError {
    EventNotFound,
}

} // verus!
