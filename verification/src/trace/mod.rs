//! Append-only trace of events, facts, behavior firings and lifecycle
//! transitions, with the lookups that `why?` walk-backs need.

pub mod entry;
pub mod store;
