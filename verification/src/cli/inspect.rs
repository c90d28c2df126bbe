//! `weaver inspect <entity-id>:<attribute>`: parsing the fact key and
//! the labels of inspection outcomes.

use vstd::prelude::*;
use crate::text::{
    decimal, first_at, lemma_decimal_digits, lemma_parse_decimal, lemma_split_first_at, lemma_split_first_of_join,
    parse_unsigned, split_first, split_once_char,
};
use crate::types::entity_ref::EntityRef;
use crate::types::fact::FactKey;
use crate::types::message::{EventInspectionError, InspectionError};

verus! {

/// Exit code of `weaver inspect` when the core is unreachable.
pub const EXIT_CORE_UNAVAILABLE: i32 = 3;

/// `core::num::ParseIntError`, carried opaquely.
#[verifier::external_type_specification]
#[verifier::external_body]
pub struct ExParseIntError(core::num::ParseIntError);

/// `str::parse::<u64>`. Trusted: it succeeds exactly on an optional `+`
/// followed by one or more ASCII digits whose value fits in a `u64`,
/// and then yields that value.
#[verifier::external_body]
fn std_parse_u64(s: &str) -> (r: Result<u64, core::num::ParseIntError>)
    ensures
        match parse_unsigned(s@, u64::MAX as nat) {
            Some(v) => r == Ok::<u64, core::num::ParseIntError>(v as u64),
            None => r is Err,
        },
{
    s.parse::<u64>()
}

/// `ParseIntError`'s `Display` text. Which of the standard texts it is
/// depends on the parse that failed; nothing is stated of it.
#[verifier::external_body]
fn parse_int_error_text(e: &core::num::ParseIntError) -> String {
    e.to_string()
}

/// Why a fact-key argument is malformed.
#[derive(Debug)]
pub enum InspectCliError {
    InvalidKey { input: String },
    InvalidEntityId { raw: String, source: core::num::ParseIntError },
}

/// What parsing `<entity-id>:<attribute>` yields: the entity id and the
/// attribute, `Err(None)` for a malformed key, `Err(Some(raw))` for an
/// entity id that is not a `u64`.
pub open spec fn fact_key_outcome(input: Seq<char>) -> Result<(u64, Seq<char>), Option<Seq<char>>> {
    match split_first(input, ':') {
        None => Err(None),
        Some((e, a)) => if e.len() == 0 || a.len() == 0 {
            Err(None)
        } else {
            match parse_unsigned(e, u64::MAX as nat) {
                None => Err(Some(e)),
                Some(v) => Ok((v as u64, a)),
            }
        },
    }
}

/// Fact keys written as `<entity-id>:<attribute>` parse back: with the
/// entity id in decimal and a non-empty attribute, the text reads as
/// that entity and attribute (the attribute may itself hold `:`).
pub proof fn lemma_fact_key_text(entity: u64, attribute: Seq<char>)
    requires
        attribute.len() > 0,
    ensures
        fact_key_outcome(decimal(entity as nat) + seq![':'] + attribute) == Ok::<
            (u64, Seq<char>),
            Option<Seq<char>>,
        >((entity, attribute)),
{
    let e = decimal(entity as nat);
    lemma_decimal_digits(entity as nat);
    assert forall|k: int| 0 <= k < e.len() implies #[trigger] e[k] != ':' by {
        assert(crate::text::is_digit(e[k]));
    }
    lemma_split_first_of_join(e, ':', attribute);
    lemma_parse_decimal(entity as nat, u64::MAX as nat);
}

/// The checks of a fact key, in order: a key without `:` is malformed;
/// so is one whose first `:` leaves an empty entity id or attribute;
/// else an entity id that is not a decimal `u64` is rejected as such;
/// else the key is that entity and the text after the first `:`.
pub proof fn lemma_fact_key_checks(input: Seq<char>)
    ensures
        !input.contains(':') ==> fact_key_outcome(input) == Err::<(u64, Seq<char>), Option<Seq<char>>>(None),
        forall|i: int| #[trigger] first_at(input, ':', i) ==> {
            let e = input.subrange(0, i);
            let a = input.subrange(i + 1, input.len() as int);
            &&& (i == 0 || i == input.len() - 1) ==> fact_key_outcome(input) == Err::<
                (u64, Seq<char>),
                Option<Seq<char>>,
            >(None)
            &&& 0 < i < input.len() - 1 ==> fact_key_outcome(input) == match parse_unsigned(e, u64::MAX as nat) {
                None => Err::<(u64, Seq<char>), Option<Seq<char>>>(Some(e)),
                Some(v) => Ok::<(u64, Seq<char>), Option<Seq<char>>>((v as u64, a)),
            }
        },
{
    if !input.contains(':') {
        assert(!exists|i: int| first_at(input, ':', i)) by {
            if exists|i: int| first_at(input, ':', i) {
                let i = choose|i: int| first_at(input, ':', i);
                assert(input[i] == ':');
            }
        }
    }
    assert forall|i: int| #[trigger] first_at(input, ':', i) implies split_first(input, ':') == Some(
        (input.subrange(0, i), input.subrange(i + 1, input.len() as int)),
    ) by {
        lemma_split_first_at(input, ':', i);
    }
}

/// Parse `<entity-id>:<attribute>` into a fact key.
pub fn parse_fact_key(input: &str) -> (r: Result<FactKey, InspectCliError>)
    ensures
        match fact_key_outcome(input@) {
            Ok((entity, attribute)) => r matches Ok(k) && k.entity.0 == entity && k.attribute@ == attribute,
            Err(None) => r matches Err(InspectCliError::InvalidKey { input: i }) && i@ == input@,
            Err(Some(raw)) => r matches Err(InspectCliError::InvalidEntityId { raw: x, .. }) && x@ == raw,
        },
{
    let (entity_raw, attribute) = match split_once_char(input, ':') {
        Some(parts) => parts,
        None => return Err(InspectCliError::InvalidKey { input: input.to_owned() }),
    };
    if entity_raw.as_str().is_empty() || attribute.as_str().is_empty() {
        return Err(InspectCliError::InvalidKey { input: input.to_owned() });
    }
    let entity_id = match std_parse_u64(entity_raw.as_str()) {
        Ok(v) => v,
        Err(source) => return Err(InspectCliError::InvalidEntityId { raw: entity_raw, source }),
    };
    Ok(FactKey::new(EntityRef::new(entity_id), attribute.as_str()))
}

impl InspectCliError {
    /// Human-readable message. For a bad entity id the text of the
    /// parse error follows the colon.
    pub fn to_display_string(&self) -> (s: String)
        ensures
            self matches InspectCliError::InvalidKey { input } ==> s@ == "could not parse fact key `"@ + input@
                + "` \u{2014} expected `<entity-id>:<attribute>` (e.g., `1:buffer/dirty`)"@,
            self matches InspectCliError::InvalidEntityId { raw, .. } ==> ("entity id `"@ + raw@
                + "` is not a valid u64: "@).is_prefix_of(s@),
    {
        match self {
            InspectCliError::InvalidKey { input } => {
                let mut s = String::from_str("could not parse fact key `");
                s.append(input.as_str());
                s.append("` \u{2014} expected `<entity-id>:<attribute>` (e.g., `1:buffer/dirty`)");
                s
            },
            InspectCliError::InvalidEntityId { raw, source } => {
                let mut s = String::from_str("entity id `");
                s.append(raw.as_str());
                s.append("` is not a valid u64: ");
                let ghost head = s@;
                s.append(parse_int_error_text(source).as_str());
                assert(head.is_prefix_of(s@)) by {
                    assert(s@.subrange(0, head.len() as int) =~= head);
                }
                s
            },
        }
    }
}

/// The CLI label of an inspection error.
pub fn inspection_error_label(e: &InspectionError) -> (r: &'static str)
    ensures
        r@ == match *e {
            InspectionError::FactNotFound => "FactNotFound"@,
            InspectionError::NoProvenance => "NoProvenance"@,
        },
{
    match e {
        InspectionError::FactNotFound => "FactNotFound",
        InspectionError::NoProvenance => "NoProvenance",
    }
}

/// The CLI label of an event-inspection error.
pub fn event_inspection_error_label(e: &EventInspectionError) -> (r: &'static str)
    ensures
        r@ == "EventNotFound"@,
{
    match e {
        EventInspectionError::EventNotFound => "EventNotFound",
    }
}

} // verus!
