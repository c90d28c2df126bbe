//! Inspection: resolve a fact key to the provenance of its current value.

pub mod handler;

pub use handler::inspect_fact;
