//! The `weaver status` response shape and the text renderings of fact
//! values and sources.

use vstd::prelude::*;
use crate::provenance::ActorIdentity;
use crate::text::{decimal, push_decimal};
use crate::types::fact::{Fact, FactValue};
use crate::types::ids::{hyphenated, push_hyphenated};
use crate::types::message::{LifecycleSignal, spec_lifecycle_name};

verus! {

/// What `weaver status` reports.
#[derive(Debug)]
pub struct StatusResponse {
    /// A lifecycle name, or `unavailable` when the core is unreachable.
    pub lifecycle: String,
    /// Nanoseconds since the core started; none when unreachable.
    pub uptime_ns: Option<u64>,
    /// Currently asserted facts; empty when unreachable.
    pub facts: Vec<Fact>,
    /// Why the core is unavailable.
    pub error: Option<String>,
}

impl StatusResponse {
    /// The response of a reachable core.
    pub fn reachable(lifecycle: LifecycleSignal, uptime_ns: u64, facts: Vec<Fact>) -> (r: Self)
        ensures
            r.lifecycle@ == spec_lifecycle_name(lifecycle),
            r.uptime_ns == Some(uptime_ns),
            r.facts@ == facts@,
            r.error is None,
    {
        StatusResponse { lifecycle: lifecycle.as_str().to_owned(), uptime_ns: Some(uptime_ns), facts, error: None }
    }

    /// The documented shape for an unreachable core.
    pub fn unavailable(reason: String) -> (r: Self)
        ensures
            r.lifecycle@ == "unavailable"@,
            r.uptime_ns is None,
            r.facts@.len() == 0,
            r.error == Some(reason),
    {
        StatusResponse { lifecycle: String::from_str("unavailable"), uptime_ns: None, facts: Vec::new(), error: Some(reason) }
    }

    pub fn is_unavailable(&self) -> (r: bool)
        ensures
            r == (self.lifecycle@ == "unavailable"@),
    {
        crate::text::str_eq(self.lifecycle.as_str(), "unavailable")
    }
}

/// `format!("{:?}", s)` of a string: quoted, with escapes.
pub uninterp spec fn str_debug(s: Seq<char>) -> Seq<char>;

/// The `Debug` rendering of a string (`"..."` with Rust escapes).
/// Trusted: named [`str_debug`] of the text.
#[verifier::external_body]
pub(crate) fn debug_quoted(s: &str) -> (r: String)
    ensures
        r@ == str_debug(s@),
{
    format!("{s:?}")
}

/// Decimal rendering of a signed integer.
pub open spec fn signed_decimal(n: i64) -> Seq<char> {
    if n < 0 {
        "-"@ + decimal((-(n as int)) as nat)
    } else {
        decimal(n as nat)
    }
}

/// Text of a fact value.
pub open spec fn spec_format_value(v: FactValue) -> Seq<char> {
    match v {
        FactValue::Bool(b) => if b { "true"@ } else { "false"@ },
        FactValue::String(s) => str_debug(s@),
        FactValue::Int(n) => signed_decimal(n),
        FactValue::U64(n) => decimal(n as nat),
        FactValue::Null => "null"@,
    }
}

/// Text of a fact value.
pub fn format_value(v: &FactValue) -> (s: String)
    ensures
        s@ == spec_format_value(*v),
{
    match v {
        FactValue::Bool(b) => if *b { String::from_str("true") } else { String::from_str("false") },
        FactValue::String(x) => debug_quoted(x.as_str()),
        FactValue::Int(n) => {
            if *n < 0 {
                let mut s = String::from_str("-");
                let magnitude: u64 = if *n == i64::MIN { 0x8000_0000_0000_0000u64 } else { (-*n) as u64 };
                push_decimal(&mut s, magnitude);
                s
            } else {
                crate::text::to_decimal(*n as u64)
            }
        },
        FactValue::U64(n) => crate::text::to_decimal(*n),
        FactValue::Null => String::from_str("null"),
    }
}

/// Text of an actor in status output.
pub open spec fn spec_format_source(a: ActorIdentity) -> Seq<char> {
    match a {
        ActorIdentity::Core => "core"@,
        ActorIdentity::Behavior { id } => "behavior:"@ + id.0@,
        ActorIdentity::Tui => "tui"@,
        ActorIdentity::Service { service_id, instance_id } => "service:"@ + service_id@ + ":"@ + hyphenated(
            instance_id as nat,
        ),
        ActorIdentity::User => "user"@,
        ActorIdentity::Host { host_id, .. } => "host:"@ + host_id@,
        ActorIdentity::Agent { agent_id, .. } => "agent:"@ + agent_id@,
    }
}

/// Text of an actor in status output.
pub fn format_source(src: &ActorIdentity) -> (s: String)
    ensures
        s@ == spec_format_source(*src),
{
    match src {
        ActorIdentity::Core => String::from_str("core"),
        ActorIdentity::Behavior { id } => {
            let mut s = String::from_str("behavior:");
            s.append(id.0.as_str());
            s
        },
        ActorIdentity::Tui => String::from_str("tui"),
        ActorIdentity::Service { service_id, instance_id } => {
            let mut s = String::from_str("service:");
            s.append(service_id.as_str());
            s.append(":");
            push_hyphenated(&mut s, *instance_id);
            s
        },
        ActorIdentity::User => String::from_str("user"),
        ActorIdentity::Host { host_id, .. } => {
            let mut s = String::from_str("host:");
            s.append(host_id.as_str());
            s
        },
        ActorIdentity::Agent { agent_id, .. } => {
            let mut s = String::from_str("agent:");
            s.append(agent_id.as_str());
            s
        },
    }
}

} // verus!
