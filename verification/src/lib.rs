//! Weaver — entities, facts, events, a fact space with provenance, an
//! append-only trace, a behavior dispatcher, bus-level decision logic,
//! CLI parsing and the buffer service's in-memory text model.

pub mod behavior;
pub mod bus;
pub mod channel;
pub mod cli;
pub mod fact_space;
pub mod inspect;
pub mod keyed;
pub mod provenance;
pub mod text;
pub mod trace;
pub mod types;
pub mod buffers;
