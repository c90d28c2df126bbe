//! Domain types: entities, identifiers, text edits, facts, events and
//! bus messages.

pub mod buffer_entity;
pub mod edit;
pub mod entity_ref;
pub mod event;
pub mod fact;
pub mod ids;
pub mod message;
