//! Events — transient bus messages saying that something happened.

use vstd::prelude::*;
use crate::provenance::Provenance;
use crate::types::edit::TextEdit;
use crate::types::entity_ref::EntityRef;
use crate::types::ids::EventId;

verus! {

/// An event at rest: a producer's [`EventOutbound`] stamped with the
/// id the bus allocated for it.
#[derive(Debug, PartialEq, Eq)]
pub struct Event {
    pub id: EventId,
    /// Wire-stable event name (e.g. `"buffer/open"`).
    pub name: String,
    pub target: Option<EntityRef>,
    pub payload: EventPayload,
    pub provenance: Provenance,
}

/// An event in flight from a producer to the bus: an [`Event`] without
/// its id.
#[derive(Debug, PartialEq, Eq)]
pub struct EventOutbound {
    pub name: String,
    pub target: Option<EntityRef>,
    pub payload: EventPayload,
    pub provenance: Provenance,
}

/// Typed event payloads.
#[derive(Debug, PartialEq, Eq)]
pub enum EventPayload {
    /// The buffer service opened a file and claims its `buffer/*` facts.
    BufferOpen { path: String },
    /// A versioned, atomic batch of text edits targeting an opened buffer.
    BufferEdit { entity: EntityRef, version: u64, edits: Vec<TextEdit> },
    /// A disk write-back request against an opened buffer.
    BufferSave { entity: EntityRef, version: u64 },
}

/// The wire discriminator of a payload.
pub open spec fn spec_type_tag(p: EventPayload) -> Seq<char> {
    match p {
        EventPayload::BufferOpen { .. } => "buffer-open"@,
        EventPayload::BufferEdit { .. } => "buffer-edit"@,
        EventPayload::BufferSave { .. } => "buffer-save"@,
    }
}

/// Two payloads carry the same data (edits compared element-wise).
pub open spec fn same_payload(a: EventPayload, b: EventPayload) -> bool {
    match a {
        EventPayload::BufferEdit { entity, version, edits } => b matches EventPayload::BufferEdit {
            entity: e2,
            version: v2,
            edits: d2,
        } && entity == e2 && version == v2 && edits@ == d2@,
        _ => a == b,
    }
}

/// Two events carry the same data.
pub open spec fn same_event(a: Event, b: Event) -> bool {
    a.id == b.id && a.name == b.name && a.target == b.target && same_payload(a.payload, b.payload)
        && a.provenance == b.provenance
}

/// Two outbound events carry the same data.
pub open spec fn same_outbound(a: EventOutbound, b: EventOutbound) -> bool {
    a.name == b.name && a.target == b.target && same_payload(a.payload, b.payload)
        && a.provenance == b.provenance
}

/// A copy of a batch of edits.
pub fn clone_edits(edits: &Vec<TextEdit>) -> (r: Vec<TextEdit>)
    ensures
        r@ == edits@,
{
    let mut r: Vec<TextEdit> = Vec::new();
    let mut i: usize = 0;
    while i < edits.len()
        invariant
            i <= edits@.len(),
            r@ == edits@.subrange(0, i as int),
        decreases edits@.len() - i,
    {
        r.push(edits[i].clone());
        i = i + 1;
        assert(r@ =~= edits@.subrange(0, i as int));
    }
    assert(r@ =~= edits@);
    r
}

impl Clone for EventPayload {
    fn clone(&self) -> (r: Self)
        ensures
            same_payload(r, *self),
    {
        match self {
            EventPayload::BufferOpen { path } => EventPayload::BufferOpen { path: path.clone() },
            EventPayload::BufferEdit { entity, version, edits } => EventPayload::BufferEdit {
                entity: *entity,
                version: *version,
                edits: clone_edits(edits),
            },
            EventPayload::BufferSave { entity, version } => EventPayload::BufferSave {
                entity: *entity,
                version: *version,
            },
        }
    }
}

impl Clone for Event {
    fn clone(&self) -> (r: Self)
        ensures
            same_event(r, *self),
    {
        Event {
            id: self.id,
            name: self.name.clone(),
            target: self.target,
            payload: self.payload.clone(),
            provenance: self.provenance.clone(),
        }
    }
}

impl Clone for EventOutbound {
    fn clone(&self) -> (r: Self)
        ensures
            same_outbound(r, *self),
    {
        EventOutbound {
            name: self.name.clone(),
            target: self.target,
            payload: self.payload.clone(),
            provenance: self.provenance.clone(),
        }
    }
}

impl Event {
    /// Promote an outbound event to an at-rest event by stamping its id.
    pub fn from_outbound(id: EventId, outbound: EventOutbound) -> (r: Self)
        ensures
            r.id == id,
            r.name == outbound.name,
            r.target == outbound.target,
            r.payload == outbound.payload,
            r.provenance == outbound.provenance,
    {
        Event {
            id,
            name: outbound.name,
            target: outbound.target,
            payload: outbound.payload,
            provenance: outbound.provenance,
        }
    }
}

impl EventPayload {
    /// The adjacent-tag wire discriminator of this payload.
    pub fn type_tag(&self) -> (r: &'static str)
        ensures
            r@ == spec_type_tag(*self),
    {
        match self {
            EventPayload::BufferOpen { .. } => "buffer-open",
            EventPayload::BufferEdit { .. } => "buffer-edit",
            EventPayload::BufferSave { .. } => "buffer-save",
        }
    }
}

} // verus!
