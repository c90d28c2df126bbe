//! The CLI's typed errors: category, code, exit code, message and the
//! JSON envelope they render to.

use vstd::prelude::*;
use crate::text::{decimal, push_decimal};
use crate::types::fact::{FactKey, spec_fact_key_display};

verus! {

/// Structured shape of an error in JSON output.
#[derive(Debug)]
pub struct ErrorEnvelope {
    pub error: ErrorBody,
}

#[derive(Debug)]
pub struct ErrorBody {
    pub category: &'static str,
    pub code: &'static str,
    pub message: String,
    pub context: Option<String>,
    pub fact_key: Option<FactKeyJson>,
}

/// A fact key as rendered in JSON.
#[derive(Debug)]
pub struct FactKeyJson {
    pub entity: u64,
    pub attribute: String,
}

impl FactKeyJson {
    pub fn from(key: &FactKey) -> (r: Self)
        ensures
            r.entity == key.entity.0,
            r.attribute == key.attribute,
    {
        FactKeyJson { entity: key.entity.0, attribute: key.attribute.clone() }
    }
}

/// CLI-level typed errors.
#[derive(Debug)]
pub enum WeaverCliError {
    CoreUnavailable { message: String, context: Option<String> },
    FactNotFound { key: FactKey, context: Option<String> },
    ParseError { message: String, context: Option<String> },
    ProtocolError { message: String, context: Option<String> },
    /// The target buffer is not opened by any buffer service (edit surface).
    BufferNotOpened { path: String, entity: u64, context: Option<String> },
    /// The range argument did not parse.
    InvalidRange { input: String, detail: String, context: Option<String> },
    /// The JSON edit input did not parse.
    MalformedEditJson { detail: String, context: Option<String> },
    /// The serialized edit event exceeds the ingest limit.
    EditWireFrameTooLarge { actual_bytes: usize, max_bytes: usize, context: Option<String> },
    /// The target buffer is not opened by any buffer service (save surface).
    BufferNotOpenedSave { entity_arg: String, entity: u64, context: Option<String> },
}

pub open spec fn spec_category(e: WeaverCliError) -> Seq<char> {
    match e {
        WeaverCliError::CoreUnavailable { .. } => "core-unavailable"@,
        WeaverCliError::FactNotFound { .. } => "fact-not-found"@,
        WeaverCliError::ParseError { .. } => "parse-error"@,
        WeaverCliError::ProtocolError { .. } => "protocol-error"@,
        WeaverCliError::BufferNotOpened { .. } => "buffer-not-opened"@,
        WeaverCliError::InvalidRange { .. } => "invalid-range"@,
        WeaverCliError::MalformedEditJson { .. } => "malformed-edit-json"@,
        WeaverCliError::EditWireFrameTooLarge { .. } => "edit-wire-frame-too-large"@,
        WeaverCliError::BufferNotOpenedSave { .. } => "buffer-not-opened"@,
    }
}

pub open spec fn spec_code(e: WeaverCliError) -> Seq<char> {
    match e {
        WeaverCliError::CoreUnavailable { .. } => "WEAVER-002"@,
        WeaverCliError::FactNotFound { .. } => "WEAVER-201"@,
        WeaverCliError::ParseError { .. } => "WEAVER-101"@,
        WeaverCliError::ProtocolError { .. } => "WEAVER-301"@,
        WeaverCliError::BufferNotOpened { .. } => "WEAVER-EDIT-001"@,
        WeaverCliError::InvalidRange { .. } => "WEAVER-EDIT-002"@,
        WeaverCliError::MalformedEditJson { .. } => "WEAVER-EDIT-003"@,
        WeaverCliError::EditWireFrameTooLarge { .. } => "WEAVER-EDIT-004"@,
        WeaverCliError::BufferNotOpenedSave { .. } => "WEAVER-SAVE-001"@,
    }
}

/// Core unavailable and fact not found are expected outcomes; every
/// other error is a general failure.
pub open spec fn spec_exit_code(e: WeaverCliError) -> i32 {
    match e {
        WeaverCliError::CoreUnavailable { .. } | WeaverCliError::FactNotFound { .. } => crate::cli::exit_code::EXPECTED,
        _ => crate::cli::exit_code::GENERAL,
    }
}

pub open spec fn spec_context(e: WeaverCliError) -> Option<String> {
    match e {
        WeaverCliError::CoreUnavailable { context, .. } => context,
        WeaverCliError::FactNotFound { context, .. } => context,
        WeaverCliError::ParseError { context, .. } => context,
        WeaverCliError::ProtocolError { context, .. } => context,
        WeaverCliError::BufferNotOpened { context, .. } => context,
        WeaverCliError::InvalidRange { context, .. } => context,
        WeaverCliError::MalformedEditJson { context, .. } => context,
        WeaverCliError::EditWireFrameTooLarge { context, .. } => context,
        WeaverCliError::BufferNotOpenedSave { context, .. } => context,
    }
}

/// The human-readable message of an error.
pub open spec fn spec_cli_error_message(e: WeaverCliError) -> Seq<char> {
    match e {
        WeaverCliError::CoreUnavailable { message, .. } => message@,
        WeaverCliError::FactNotFound { key, .. } => "fact not found: "@ + spec_fact_key_display(key),
        WeaverCliError::ParseError { message, .. } => "invalid input: "@ + message@,
        WeaverCliError::ProtocolError { message, .. } => "bus protocol error: "@ + message@,
        WeaverCliError::BufferNotOpened { path, entity, .. } => "buffer not opened: "@ + path@
            + " \u{2014} no fact (entity:"@ + decimal(entity as nat)
            + ", attribute:buffer/version) is asserted by any authority. Run `weaver-buffers "@ + path@
            + "` to open the buffer."@,
        WeaverCliError::InvalidRange { input, detail, .. } => "invalid range \""@ + input@ + "\": "@ + detail@,
        WeaverCliError::MalformedEditJson { detail, .. } => "malformed edit-json input: "@ + detail@,
        WeaverCliError::EditWireFrameTooLarge { actual_bytes, max_bytes, .. } => "serialised BufferEdit ("@
            + decimal(actual_bytes as nat) + " bytes) exceeds ingest-frame limit ("@ + decimal(max_bytes as nat)
            + " bytes). Reduce the batch size or shorten new-text fields."@,
        WeaverCliError::BufferNotOpenedSave { entity_arg, entity, .. } => "buffer not opened: "@ + entity_arg@
            + " \u{2014} no fact (entity:"@ + decimal(entity as nat)
            + ", attribute:buffer/version) is asserted by any authority. Run `weaver-buffers <PATH>` to open the buffer."@,
    }
}

fn clone_opt(s: &Option<String>) -> (r: Option<String>)
    ensures
        r == *s,
{
    match s {
        Some(x) => Some(x.clone()),
        None => None,
    }
}

impl WeaverCliError {
    /// Category string, shown in human and JSON output.
    pub fn category(&self) -> (r: &'static str)
        ensures
            r@ == spec_category(*self),
    {
        match self {
            WeaverCliError::CoreUnavailable { .. } => "core-unavailable",
            WeaverCliError::FactNotFound { .. } => "fact-not-found",
            WeaverCliError::ParseError { .. } => "parse-error",
            WeaverCliError::ProtocolError { .. } => "protocol-error",
            WeaverCliError::BufferNotOpened { .. } => "buffer-not-opened",
            WeaverCliError::InvalidRange { .. } => "invalid-range",
            WeaverCliError::MalformedEditJson { .. } => "malformed-edit-json",
            WeaverCliError::EditWireFrameTooLarge { .. } => "edit-wire-frame-too-large",
            WeaverCliError::BufferNotOpenedSave { .. } => "buffer-not-opened",
        }
    }

    /// Diagnostic code.
    pub fn code_str(&self) -> (r: &'static str)
        ensures
            r@ == spec_code(*self),
    {
        match self {
            WeaverCliError::CoreUnavailable { .. } => "WEAVER-002",
            WeaverCliError::FactNotFound { .. } => "WEAVER-201",
            WeaverCliError::ParseError { .. } => "WEAVER-101",
            WeaverCliError::ProtocolError { .. } => "WEAVER-301",
            WeaverCliError::BufferNotOpened { .. } => "WEAVER-EDIT-001",
            WeaverCliError::InvalidRange { .. } => "WEAVER-EDIT-002",
            WeaverCliError::MalformedEditJson { .. } => "WEAVER-EDIT-003",
            WeaverCliError::EditWireFrameTooLarge { .. } => "WEAVER-EDIT-004",
            WeaverCliError::BufferNotOpenedSave { .. } => "WEAVER-SAVE-001",
        }
    }

    pub fn context(&self) -> (r: Option<&str>)
        ensures
            match spec_context(*self) {
                Some(c) => r matches Some(x) && x@ == c@,
                None => r is None,
            },
    {
        let c = match self {
            WeaverCliError::CoreUnavailable { context, .. } => context,
            WeaverCliError::FactNotFound { context, .. } => context,
            WeaverCliError::ParseError { context, .. } => context,
            WeaverCliError::ProtocolError { context, .. } => context,
            WeaverCliError::BufferNotOpened { context, .. } => context,
            WeaverCliError::InvalidRange { context, .. } => context,
            WeaverCliError::MalformedEditJson { context, .. } => context,
            WeaverCliError::EditWireFrameTooLarge { context, .. } => context,
            WeaverCliError::BufferNotOpenedSave { context, .. } => context,
        };
        match c {
            Some(s) => Some(s.as_str()),
            None => None,
        }
    }

    pub fn fact_key(&self) -> (r: Option<&FactKey>)
        ensures
            match *self {
                WeaverCliError::FactNotFound { key, .. } => r == Some(&key),
                _ => r is None,
            },
    {
        match self {
            WeaverCliError::FactNotFound { key, .. } => Some(key),
            _ => None,
        }
    }

    pub fn exit_code(&self) -> (r: i32)
        ensures
            r == spec_exit_code(*self),
    {
        match self {
            WeaverCliError::CoreUnavailable { .. } | WeaverCliError::FactNotFound { .. } => crate::cli::exit_code::EXPECTED,
            _ => crate::cli::exit_code::GENERAL,
        }
    }

    /// Human-readable message.
    pub fn to_display_string(&self) -> (s: String)
        ensures
            s@ == spec_cli_error_message(*self),
    {
        match self {
            WeaverCliError::CoreUnavailable { message, .. } => message.clone(),
            WeaverCliError::FactNotFound { key, .. } => {
                let mut s = String::from_str("fact not found: ");
                s.append(key.to_display_string().as_str());
                s
            },
            WeaverCliError::ParseError { message, .. } => {
                let mut s = String::from_str("invalid input: ");
                s.append(message.as_str());
                s
            },
            WeaverCliError::ProtocolError { message, .. } => {
                let mut s = String::from_str("bus protocol error: ");
                s.append(message.as_str());
                s
            },
            WeaverCliError::BufferNotOpened { path, entity, .. } => {
                let mut s = String::from_str("buffer not opened: ");
                s.append(path.as_str());
                s.append(" \u{2014} no fact (entity:");
                push_decimal(&mut s, *entity);
                s.append(", attribute:buffer/version) is asserted by any authority. Run `weaver-buffers ");
                s.append(path.as_str());
                s.append("` to open the buffer.");
                s
            },
            WeaverCliError::InvalidRange { input, detail, .. } => {
                let mut s = String::from_str("invalid range \"");
                s.append(input.as_str());
                s.append("\": ");
                s.append(detail.as_str());
                s
            },
            WeaverCliError::MalformedEditJson { detail, .. } => {
                let mut s = String::from_str("malformed edit-json input: ");
                s.append(detail.as_str());
                s
            },
            WeaverCliError::EditWireFrameTooLarge { actual_bytes, max_bytes, .. } => {
                let mut s = String::from_str("serialised BufferEdit (");
                push_decimal(&mut s, *actual_bytes as u64);
                s.append(" bytes) exceeds ingest-frame limit (");
                push_decimal(&mut s, *max_bytes as u64);
                s.append(" bytes). Reduce the batch size or shorten new-text fields.");
                s
            },
            WeaverCliError::BufferNotOpenedSave { entity_arg, entity, .. } => {
                let mut s = String::from_str("buffer not opened: ");
                s.append(entity_arg.as_str());
                s.append(" \u{2014} no fact (entity:");
                push_decimal(&mut s, *entity);
                s.append(
                    ", attribute:buffer/version) is asserted by any authority. Run `weaver-buffers <PATH>` to open the buffer.",
                );
                s
            },
        }
    }

    /// The JSON envelope of this error.
    pub fn envelope(&self) -> (r: ErrorEnvelope)
        ensures
            r.error.category@ == spec_category(*self),
            r.error.code@ == spec_code(*self),
            r.error.message@ == spec_cli_error_message(*self),
            match spec_context(*self) {
                Some(c) => r.error.context matches Some(x) && x@ == c@,
                None => r.error.context is None,
            },
            match *self {
                WeaverCliError::FactNotFound { key, .. } => r.error.fact_key matches Some(j) && j.entity == key.entity.0
                    && j.attribute == key.attribute,
                _ => r.error.fact_key is None,
            },
    {
        let context = match self.context() {
            Some(c) => Some(c.to_owned()),
            None => None,
        };
        let fact_key = match self.fact_key() {
            Some(k) => Some(FactKeyJson::from(k)),
            None => None,
        };
        ErrorEnvelope {
            error: ErrorBody {
                category: self.category(),
                code: self.code_str(),
                message: self.to_display_string(),
                context,
                fact_key,
            },
        }
    }

    /// A copy of this error.
    pub fn clone_err(&self) -> (r: Self)
        ensures
            r == *self,
    {
        match self {
            WeaverCliError::CoreUnavailable { message, context } => WeaverCliError::CoreUnavailable {
                message: message.clone(),
                context: clone_opt(context),
            },
            WeaverCliError::FactNotFound { key, context } => WeaverCliError::FactNotFound {
                key: key.clone(),
                context: clone_opt(context),
            },
            WeaverCliError::ParseError { message, context } => WeaverCliError::ParseError {
                message: message.clone(),
                context: clone_opt(context),
            },
            WeaverCliError::ProtocolError { message, context } => WeaverCliError::ProtocolError {
                message: message.clone(),
                context: clone_opt(context),
            },
            WeaverCliError::BufferNotOpened { path, entity, context } => WeaverCliError::BufferNotOpened {
                path: path.clone(),
                entity: *entity,
                context: clone_opt(context),
            },
            WeaverCliError::InvalidRange { input, detail, context } => WeaverCliError::InvalidRange {
                input: input.clone(),
                detail: detail.clone(),
                context: clone_opt(context),
            },
            WeaverCliError::MalformedEditJson { detail, context } => WeaverCliError::MalformedEditJson {
                detail: detail.clone(),
                context: clone_opt(context),
            },
            WeaverCliError::EditWireFrameTooLarge { actual_bytes, max_bytes, context } => {
                WeaverCliError::EditWireFrameTooLarge {
                    actual_bytes: *actual_bytes,
                    max_bytes: *max_bytes,
                    context: clone_opt(context),
                }
            },
            WeaverCliError::BufferNotOpenedSave { entity_arg, entity, context } => {
                WeaverCliError::BufferNotOpenedSave {
                    entity_arg: entity_arg.clone(),
                    entity: *entity,
                    context: clone_opt(context),
                }
            },
        }
    }
}

} // verus!
