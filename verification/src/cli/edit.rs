//! Parsing of the `<start-line>:<start-char>-<end-line>:<end-char>`
//! range argument of `weaver edit`.

use vstd::prelude::*;
use crate::text::{
    decimal, first_at, lemma_decimal_digits, lemma_parse_decimal, lemma_split_first_at, lemma_split_first_of_join,
    parse_u32, parse_unsigned, split_first, split_once_char,
};
use crate::types::edit::{Position, Range};

verus! {

/// Why a range argument is malformed; each variant carries the whole
/// input.
#[derive(Debug, PartialEq, Eq)]
pub enum RangeParseError {
    /// Not of the shape `<sl>:<sc>-<el>:<ec>`.
    Format { input: String },
    /// One component is not a decimal `u32`.
    Component { input: String, component: String },
}

/// The name of a rejected component, e.g. `start-line "x"`.
pub open spec fn component_name(side: Seq<char>, which: Seq<char>, raw: Seq<char>) -> Seq<char> {
    side + "-"@ + which + " \""@ + raw + "\""@
}

/// What parsing one endpoint yields: the position, or the rejected
/// component's name (`None` for a shape error).
pub open spec fn position_outcome(pos: Seq<char>, side: Seq<char>) -> Result<Position, Option<Seq<char>>> {
    match split_first(pos, ':') {
        None => Err(None),
        Some((l, c)) => match parse_unsigned(l, u32::MAX as nat) {
            None => Err(Some(component_name(side, "line"@, l))),
            Some(lv) => match parse_unsigned(c, u32::MAX as nat) {
                None => Err(Some(component_name(side, "character"@, c))),
                Some(cv) => Ok(Position { line: lv as u32, character: cv as u32 }),
            },
        },
    }
}

/// What parsing a range yields: the range, or the rejected component's
/// name (`None` for a shape error).
pub open spec fn range_outcome(input: Seq<char>) -> Result<Range, Option<Seq<char>>> {
    match split_first(input, '-') {
        None => Err(None),
        Some((a, b)) => match position_outcome(a, "start"@) {
            Err(f) => Err(f),
            Ok(start) => match position_outcome(b, "end"@) {
                Err(f) => Err(f),
                Ok(end) => Ok(Range { start, end }),
            },
        },
    }
}

/// `e` reports `fault` for `input`.
pub open spec fn range_error_is(e: RangeParseError, input: Seq<char>, fault: Option<Seq<char>>) -> bool {
    match fault {
        None => e matches RangeParseError::Format { input: i } && i@ == input,
        Some(c) => e matches RangeParseError::Component { input: i, component } && i@ == input && component@ == c,
    }
}

/// The message of a range error.
pub open spec fn spec_range_error_message(e: RangeParseError) -> Seq<char> {
    match e {
        RangeParseError::Format { input } => "invalid range \""@ + input@
            + "\": expected <start-line>:<start-char>-<end-line>:<end-char>"@,
        RangeParseError::Component { input, component } => "invalid range \""@ + input@ + "\": "@ + component@
            + " is not a decimal u32 in range [0, 2^32)"@,
    }
}

impl RangeParseError {
    /// Human-readable message.
    pub fn to_display_string(&self) -> (s: String)
        ensures
            s@ == spec_range_error_message(*self),
    {
        match self {
            RangeParseError::Format { input } => {
                let mut s = String::from_str("invalid range \"");
                s.append(input.as_str());
                s.append("\": expected <start-line>:<start-char>-<end-line>:<end-char>");
                s
            },
            RangeParseError::Component { input, component } => {
                let mut s = String::from_str("invalid range \"");
                s.append(input.as_str());
                s.append("\": ");
                s.append(component.as_str());
                s.append(" is not a decimal u32 in range [0, 2^32)");
                s
            },
        }
    }
}

fn component_error(full_input: &str, side: &str, which: &str, raw: &str) -> (e: RangeParseError)
    ensures
        e matches RangeParseError::Component { input, component } && input@ == full_input@
            && component@ == component_name(side@, which@, raw@),
{
    let mut component = String::from_str(side);
    component.append("-");
    component.append(which);
    component.append(" \"");
    component.append(raw);
    component.append("\"");
    RangeParseError::Component { input: full_input.to_owned(), component }
}

/// Parse one `<line>:<char>` endpoint of `full_input`.
pub fn parse_position(pos_str: &str, full_input: &str, side: &str) -> (r: Result<Position, RangeParseError>)
    ensures
        match position_outcome(pos_str@, side@) {
            Ok(p) => r == Ok::<Position, RangeParseError>(p),
            Err(f) => r matches Err(e) && range_error_is(e, full_input@, f),
        },
{
    let (line_str, char_str) = match split_once_char(pos_str, ':') {
        Some(parts) => parts,
        None => return Err(RangeParseError::Format { input: full_input.to_owned() }),
    };
    let line = match parse_u32(line_str.as_str()) {
        Some(v) => v,
        None => return Err(component_error(full_input, side, "line", line_str.as_str())),
    };
    let character = match parse_u32(char_str.as_str()) {
        Some(v) => v,
        None => return Err(component_error(full_input, side, "character", char_str.as_str())),
    };
    Ok(Position { line, character })
}

/// Parse a `<sl>:<sc>-<el>:<ec>` range of decimal `u32` components.
pub fn parse_range(input: &str) -> (r: Result<Range, RangeParseError>)
    ensures
        match range_outcome(input@) {
            Ok(range) => r == Ok::<Range, RangeParseError>(range),
            Err(f) => r matches Err(e) && range_error_is(e, input@, f),
        },
{
    let (start_str, end_str) = match split_once_char(input, '-') {
        Some(parts) => parts,
        None => return Err(RangeParseError::Format { input: input.to_owned() }),
    };
    let start = match parse_position(start_str.as_str(), input, "start") {
        Ok(p) => p,
        Err(e) => return Err(e),
    };
    let end = match parse_position(end_str.as_str(), input, "end") {
        Ok(p) => p,
        Err(e) => return Err(e),
    };
    Ok(Range { start, end })
}

/// The text `<sl>:<sc>-<el>:<ec>` of a range, each component in decimal.
pub open spec fn range_text(r: Range) -> Seq<char> {
    decimal(r.start.line as nat) + seq![':'] + decimal(r.start.character as nat) + seq!['-'] + decimal(
        r.end.line as nat,
    ) + seq![':'] + decimal(r.end.character as nat)
}

/// The text `<line>:<char>` of a position, in decimal.
pub open spec fn position_text(p: Position) -> Seq<char> {
    decimal(p.line as nat) + seq![':'] + decimal(p.character as nat)
}

/// A position's text parses back to the position.
proof fn lemma_position_text(p: Position, side: Seq<char>)
    ensures
        position_outcome(position_text(p), side) == Ok::<Position, Option<Seq<char>>>(p),
        forall|k: int| 0 <= k < position_text(p).len() ==> #[trigger] position_text(p)[k] != '-',
{
    let l = decimal(p.line as nat);
    let c = decimal(p.character as nat);
    lemma_decimal_digits(p.line as nat);
    lemma_decimal_digits(p.character as nat);
    assert forall|k: int| 0 <= k < l.len() implies #[trigger] l[k] != ':' by {
        assert(crate::text::is_digit(l[k]));
    }
    lemma_split_first_of_join(l, ':', c);
    lemma_parse_decimal(p.line as nat, u32::MAX as nat);
    lemma_parse_decimal(p.character as nat, u32::MAX as nat);
    let t = position_text(p);
    assert forall|k: int| 0 <= k < t.len() implies #[trigger] t[k] != '-' by {
        if k < l.len() {
            assert(t[k] == l[k]);
            assert(crate::text::is_digit(l[k]));
        } else if k > l.len() {
            assert(t[k] == c[k - l.len() - 1]);
            assert(crate::text::is_digit(c[k - l.len() - 1]));
        }
    }
}

/// The checks of a range, in order: a text without `-` is malformed;
/// otherwise the start endpoint (before the first `-`) is checked first
/// and its fault, if any, is reported; then the end endpoint (after it);
/// with both well formed the range is made of them. Within an endpoint,
/// a missing `:` is a shape error, then the line is checked before the
/// character.
pub proof fn lemma_range_checks(input: Seq<char>)
    ensures
        !input.contains('-') ==> range_outcome(input) == Err::<Range, Option<Seq<char>>>(None),
        forall|i: int| #[trigger] first_at(input, '-', i) ==> {
            let a = input.subrange(0, i);
            let b = input.subrange(i + 1, input.len() as int);
            range_outcome(input) == match (position_outcome(a, "start"@), position_outcome(b, "end"@)) {
                (Err(f), _) => Err::<Range, Option<Seq<char>>>(f),
                (Ok(_), Err(f)) => Err::<Range, Option<Seq<char>>>(f),
                (Ok(st), Ok(en)) => Ok::<Range, Option<Seq<char>>>(Range { start: st, end: en }),
            }
        },
        forall|pos: Seq<char>, side: Seq<char>|
            !pos.contains(':') ==> #[trigger] position_outcome(pos, side) == Err::<Position, Option<Seq<char>>>(None),
        forall|pos: Seq<char>, side: Seq<char>, j: int| #[trigger] first_at(pos, ':', j) ==> {
            let l = pos.subrange(0, j);
            let c = pos.subrange(j + 1, pos.len() as int);
            &&& parse_unsigned(l, u32::MAX as nat) is None ==> #[trigger] position_outcome(pos, side) == Err::<
                Position,
                Option<Seq<char>>,
            >(Some(component_name(side, "line"@, l)))
            &&& (parse_unsigned(l, u32::MAX as nat) is Some && parse_unsigned(c, u32::MAX as nat) is None)
                ==> position_outcome(pos, side) == Err::<Position, Option<Seq<char>>>(
                Some(component_name(side, "character"@, c)),
            )
        },
{
    if !input.contains('-') {
        if exists|i: int| first_at(input, '-', i) {
            let i = choose|i: int| first_at(input, '-', i);
            assert(input[i] == '-');
        }
    }
    assert forall|i: int| #[trigger] first_at(input, '-', i) implies split_first(input, '-') == Some(
        (input.subrange(0, i), input.subrange(i + 1, input.len() as int)),
    ) by {
        lemma_split_first_at(input, '-', i);
    }
    assert forall|pos: Seq<char>, side: Seq<char>|
        !pos.contains(':') implies #[trigger] position_outcome(pos, side) == Err::<Position, Option<Seq<char>>>(None) by {
        if exists|j: int| first_at(pos, ':', j) {
            let j = choose|j: int| first_at(pos, ':', j);
            assert(pos[j] == ':');
        }
    }
    assert forall|pos: Seq<char>, j: int| #[trigger] first_at(pos, ':', j) implies split_first(pos, ':')
        == Some((pos.subrange(0, j), pos.subrange(j + 1, pos.len() as int))) by {
        lemma_split_first_at(pos, ':', j);
    }
}

/// The range syntax round-trips: the decimal text `<sl>:<sc>-<el>:<ec>`
/// of any range parses back to that range.
pub proof fn lemma_parse_range_text(r: Range)
    ensures
        range_outcome(range_text(r)) == Ok::<Range, Option<Seq<char>>>(r),
{
    lemma_position_text(r.start, "start"@);
    lemma_position_text(r.end, "end"@);
    let a = position_text(r.start);
    let b = position_text(r.end);
    assert(range_text(r) =~= a + seq!['-'] + b);
    lemma_split_first_of_join(a, '-', b);
}

} // verus!
