//! Trace entry types.

use vstd::prelude::*;
use crate::provenance::Provenance;
use crate::types::event::Event;
use crate::types::fact::{Fact, FactKey};
use crate::types::ids::{BehaviorId, EventId};
use crate::types::message::LifecycleSignal;

verus! {

/// Position of an entry in the trace: the n-th appended entry has
/// sequence n.
#[derive(Clone, Copy, Debug, PartialEq, Eq, Structural, Hash, PartialOrd, Ord)]
pub struct TraceSequence(pub u64);

impl TraceSequence {
    pub fn new(n: u64) -> (r: Self)
        ensures
            r.0 == n,
    {
        TraceSequence(n)
    }

    pub fn as_u64(self) -> (r: u64)
        ensures
            r == self.0,
    {
        self.0
    }

    /// The following sequence.
    pub fn next(self) -> (r: Self)
        requires
            self.0 < u64::MAX,
        ensures
            r.0 == self.0 + 1,
    {
        TraceSequence(self.0 + 1)
    }

    /// The decimal rendering of the sequence.
    pub fn to_display_string(self) -> (s: String)
        ensures
            s@ == crate::text::decimal(self.0 as nat),
    {
        crate::text::to_decimal(self.0)
    }
}

/// One recorded entry.
#[derive(Debug, PartialEq, Eq)]
pub struct TraceEntry {
    pub sequence: TraceSequence,
    pub timestamp_ns: u64,
    pub payload: TracePayload,
}

/// What an entry records.
#[derive(Debug, PartialEq, Eq)]
pub enum TracePayload {
    Event { event: Event },
    FactAsserted { fact: Fact },
    FactRetracted { key: FactKey, provenance: Provenance },
    BehaviorFired {
        behavior: BehaviorId,
        triggering_event: EventId,
        asserted: Vec<FactKey>,
        retracted: Vec<FactKey>,
        error: Option<String>,
    },
    Lifecycle(LifecycleSignal),
}

} // verus!
