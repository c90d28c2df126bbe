//! Subcommands and output formats of the `weaver` binary.

use vstd::prelude::*;

verus! {

/// The subcommands of `weaver`.
#[derive(Debug, PartialEq, Eq)]
pub enum Command {
    /// Start the core process; block until SIGINT/SIGTERM.
    Run,
    /// One-shot snapshot of core lifecycle and asserted facts.
    Status,
    /// Inspect a fact's provenance (`<entity-id>:<attribute>`); with
    /// `why`, also the event that caused it.
    Inspect { fact_key: String, why: bool },
    /// Ask the buffer service to write a buffer back to disk (`entity`
    /// is an entity id or a path).
    Save { entity: String },
}

/// Output format of commands that produce structured output.
#[derive(Clone, Copy, Debug, PartialEq, Eq, Structural)]
pub enum OutputFormat {
    Human,
    Json,
}

} // verus!
