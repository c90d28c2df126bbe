//! `weaver save <ENTITY>`: resolving the entity argument, reading the
//! buffer's version from the inspection reply, and building the save
//! event.

use vstd::prelude::*;
use crate::cli::errors::WeaverCliError;
use crate::cli::output::{signed_decimal, str_debug};
use crate::provenance::{ActorIdentity, Provenance};
use crate::text::{decimal, parse_u64, parse_unsigned, push_decimal};
use crate::types::entity_ref::EntityRef;
use crate::types::event::{Event, EventPayload};
use crate::types::fact::FactValue;
use crate::types::ids::{EventId, spec_mint_v8};
use crate::types::message::{InspectionDetail, InspectionError};

verus! {

/// Exit code of a save whose inspection reply breaks the protocol.
pub const EXIT_PROTOCOL_VIOLATION: i32 = 10;

/// An entity argument that is a decimal `u64` names the entity itself
/// (displayed as given); any other argument is a path to canonicalise.
pub fn numeric_entity(arg: &str) -> (r: Option<(EntityRef, String)>)
    ensures
        match parse_unsigned(arg@, u64::MAX as nat) {
            Some(n) => r matches Some((e, d)) && e.0 == n && d@ == arg@,
            None => r is None,
        },
{
    match parse_u64(arg) {
        Some(n) => Some((EntityRef::new(n), arg.to_owned())),
        None => None,
    }
}

/// The `Debug` rendering of a fact value.
pub open spec fn fact_value_debug(v: FactValue) -> Seq<char> {
    match v {
        FactValue::Bool(b) => "Bool("@ + (if b { "true"@ } else { "false"@ }) + ")"@,
        FactValue::String(s) => "String("@ + str_debug(s@) + ")"@,
        FactValue::Int(n) => "Int("@ + signed_decimal(n) + ")"@,
        FactValue::U64(n) => "U64("@ + decimal(n as nat) + ")"@,
        FactValue::Null => "Null"@,
    }
}

fn format_fact_value_debug(v: &FactValue) -> (s: String)
    ensures
        s@ == fact_value_debug(*v),
{
    let inner = crate::cli::output::format_value(v);
    match v {
        FactValue::Bool(_) => {
            let mut s = String::from_str("Bool(");
            s.append(inner.as_str());
            s.append(")");
            s
        },
        FactValue::String(_) => {
            let mut s = String::from_str("String(");
            s.append(inner.as_str());
            s.append(")");
            s
        },
        FactValue::Int(_) => {
            let mut s = String::from_str("Int(");
            s.append(inner.as_str());
            s.append(")");
            s
        },
        FactValue::U64(_) => {
            let mut s = String::from_str("U64(");
            s.append(inner.as_str());
            s.append(")");
            s
        },
        FactValue::Null => String::from_str("Null"),
    }
}

/// Read the buffer's version out of the inspection reply for
/// `buffer/version`: a `U64` value is the version; a missing fact means
/// the buffer is not opened; anything else breaks the protocol. Errors
/// come with the exit code to end with.
pub fn save_version_from_inspect(
    entity: EntityRef,
    entity_display: String,
    entity_arg: &str,
    response: Result<InspectionDetail, InspectionError>,
) -> (r: Result<u64, (WeaverCliError, i32)>)
    ensures
        match response {
            Err(InspectionError::FactNotFound) => r matches Err((WeaverCliError::BufferNotOpenedSave {
                entity_arg: a,
                entity: e,
                context: Some(c),
            }, code)) && a == entity_display && e == entity.0 && c@ == "weaver save "@ + entity_arg@ && code == 1,
            Err(InspectionError::NoProvenance) => r matches Err((WeaverCliError::ProtocolError {
                message: m,
                context: Some(c),
            }, code)) && m@ == "buffer/version exists for entity "@ + decimal(entity.0 as nat)
                + " but has no provenance"@ && c@ == "weaver save inspect-lookup"@ && code == EXIT_PROTOCOL_VIOLATION,
            Ok(d) => match d.value {
                FactValue::U64(v) => r == Ok::<u64, (WeaverCliError, i32)>(v),
                other => r matches Err((WeaverCliError::ProtocolError { message: m, context: Some(c) }, code)) && m@
                    == "buffer/version (entity "@ + decimal(entity.0 as nat) + ") expected U64 but got "@
                    + fact_value_debug(other) && c@ == "weaver save inspect-lookup"@ && code == EXIT_PROTOCOL_VIOLATION,
            },
        },
{
    match response {
        Err(InspectionError::FactNotFound) => {
            let mut c = String::from_str("weaver save ");
            c.append(entity_arg);
            let err = WeaverCliError::BufferNotOpenedSave { entity_arg: entity_display, entity: entity.0, context: Some(c) };
            let code = err.exit_code();
            Err((err, code))
        },
        Err(InspectionError::NoProvenance) => {
            let mut m = String::from_str("buffer/version exists for entity ");
            push_decimal(&mut m, entity.0);
            m.append(" but has no provenance");
            Err(
                (
                    WeaverCliError::ProtocolError {
                        message: m,
                        context: Some(String::from_str("weaver save inspect-lookup")),
                    },
                    EXIT_PROTOCOL_VIOLATION,
                ),
            )
        },
        Ok(detail) => match detail.value {
            FactValue::U64(v) => Ok(v),
            other => {
                let mut m = String::from_str("buffer/version (entity ");
                push_decimal(&mut m, entity.0);
                m.append(") expected U64 but got ");
                m.append(format_fact_value_debug(&other).as_str());
                Err(
                    (
                        WeaverCliError::ProtocolError {
                            message: m,
                            context: Some(String::from_str("weaver save inspect-lookup")),
                        },
                        EXIT_PROTOCOL_VIOLATION,
                    ),
                )
            },
        },
    }
}

/// The save request for `(entity, version)`: a user event whose id is
/// minted from the per-process user prefix and the time.
pub fn save_event(entity: EntityRef, version: u64, now_ns: u64, user_prefix: u64) -> (e: Event)
    ensures
        e.id.0 == spec_mint_v8(user_prefix, now_ns),
        e.name@ == "buffer/save"@,
        e.target == Some(entity),
        e.payload == (EventPayload::BufferSave { entity, version }),
        e.provenance == (Provenance { source: ActorIdentity::User, timestamp_ns: now_ns, causal_parent: None }),
{
    Event {
        id: EventId::mint_v8(user_prefix, now_ns),
        name: String::from_str("buffer/save"),
        target: Some(entity),
        payload: EventPayload::BufferSave { entity, version },
        provenance: Provenance { source: ActorIdentity::User, timestamp_ns: now_ns, causal_parent: None },
    }
}

} // verus!
