//! Validation of text edits against a buffer and the error taxonomy of
//! the edit pipeline.

use vstd::prelude::*;
use crate::buffers::lines::{
    LineIndex, byte_offset, line_count, line_len, line_starts, lemma_line_extent, lemma_line_starts,
};
use crate::text::{decimal, push_decimal};
use crate::types::edit::{Position, TextEdit, pos_lt};

verus! {

/// Endpoint of a range — identifies which side tripped a check.
#[derive(Debug, Clone, Copy, PartialEq, Eq, Structural)]
pub enum BoundarySide {
    Start,
    End,
}

/// Kebab-case name of a side.
pub open spec fn side_chars(side: BoundarySide) -> Seq<char> {
    match side {
        BoundarySide::Start => "start"@,
        BoundarySide::End => "end"@,
    }
}

impl BoundarySide {
    /// `"start"` or `"end"`, as displayed.
    pub fn as_str(&self) -> (s: &'static str)
        ensures
            s@ == side_chars(*self),
    {
        match self {
            BoundarySide::Start => "start",
            BoundarySide::End => "end",
        }
    }
}

/// Categorised failure modes of [`crate::buffers::model::BufferState::apply_edits`].
#[derive(Debug, PartialEq, Eq)]
pub enum ApplyError {
    /// An endpoint references a line or character beyond the buffer
    /// (and is not the past-last position).
    OutOfBounds { edit_index: usize, detail: String },
    /// An endpoint character lands inside a multi-byte UTF-8 sequence
    /// within its line.
    MidCodepointBoundary { edit_index: usize, side: BoundarySide, line: u32, character: u32 },
    /// Two edits of the batch overlap (indices in input order, smaller first).
    IntraBatchOverlap { first_index: usize, second_index: usize },
    /// Empty range with empty `new_text`.
    NothingEdit { edit_index: usize },
    /// `range.start > range.end`.
    SwappedEndpoints { edit_index: usize },
    /// `new_text` is not valid UTF-8 (kept for completeness; a `String`
    /// is always valid UTF-8).
    InvalidUtf8 { edit_index: usize },
}

impl Clone for ApplyError {
    fn clone(&self) -> (r: Self)
        ensures
            r == *self,
    {
        match self {
            ApplyError::OutOfBounds { edit_index, detail } => ApplyError::OutOfBounds { edit_index: *edit_index, detail: detail.clone() },
            ApplyError::MidCodepointBoundary { edit_index, side, line, character } => ApplyError::MidCodepointBoundary {
                edit_index: *edit_index,
                side: *side,
                line: *line,
                character: *character,
            },
            ApplyError::IntraBatchOverlap { first_index, second_index } => ApplyError::IntraBatchOverlap {
                first_index: *first_index,
                second_index: *second_index,
            },
            ApplyError::NothingEdit { edit_index } => ApplyError::NothingEdit { edit_index: *edit_index },
            ApplyError::SwappedEndpoints { edit_index } => ApplyError::SwappedEndpoints { edit_index: *edit_index },
            ApplyError::InvalidUtf8 { edit_index } => ApplyError::InvalidUtf8 { edit_index: *edit_index },
        }
    }
}

/// The stable kebab-case reason category of an error.
pub open spec fn spec_reason(e: ApplyError) -> Seq<char> {
    match e {
        ApplyError::OutOfBounds { .. } => "validation-failure-out-of-bounds"@,
        ApplyError::MidCodepointBoundary { .. } => "validation-failure-mid-codepoint-boundary"@,
        ApplyError::IntraBatchOverlap { .. } => "validation-failure-intra-batch-overlap"@,
        ApplyError::NothingEdit { .. } => "validation-failure-nothing-edit"@,
        ApplyError::SwappedEndpoints { .. } => "validation-failure-swapped-endpoints"@,
        ApplyError::InvalidUtf8 { .. } => "validation-failure-invalid-utf8"@,
    }
}

/// The per-edit index an error refers to; `None` for the pair-shaped
/// overlap error.
pub open spec fn spec_edit_index(e: ApplyError) -> Option<usize> {
    match e {
        ApplyError::OutOfBounds { edit_index, .. } => Some(edit_index),
        ApplyError::MidCodepointBoundary { edit_index, .. } => Some(edit_index),
        ApplyError::IntraBatchOverlap { .. } => None,
        ApplyError::NothingEdit { edit_index } => Some(edit_index),
        ApplyError::SwappedEndpoints { edit_index } => Some(edit_index),
        ApplyError::InvalidUtf8 { edit_index } => Some(edit_index),
    }
}

/// Human-readable message of an error.
pub open spec fn spec_apply_error_message(e: ApplyError) -> Seq<char> {
    match e {
        ApplyError::OutOfBounds { edit_index, detail } =>
            "edit "@ + decimal(edit_index as nat) + " out of bounds: "@ + detail@,
        ApplyError::MidCodepointBoundary { edit_index, side, line, character } =>
            "edit "@ + decimal(edit_index as nat) + " "@ + side_chars(side) + " endpoint at line "@
                + decimal(line as nat) + " character "@ + decimal(character as nat)
                + " falls mid-codepoint within the line's bytes"@,
        ApplyError::IntraBatchOverlap { first_index, second_index } =>
            "edits "@ + decimal(first_index as nat) + " and "@ + decimal(second_index as nat)
                + " overlap within the batch"@,
        ApplyError::NothingEdit { edit_index } =>
            "edit "@ + decimal(edit_index as nat) + " is a nothing-edit (empty range with empty new_text)"@,
        ApplyError::SwappedEndpoints { edit_index } =>
            "edit "@ + decimal(edit_index as nat) + " has start > end (swapped endpoints)"@,
        ApplyError::InvalidUtf8 { edit_index } =>
            "edit "@ + decimal(edit_index as nat) + " new_text is not valid UTF-8"@,
    }
}

impl ApplyError {
    /// Stable kebab-case reason category.
    pub fn reason(&self) -> (r: &'static str)
        ensures
            r@ == spec_reason(*self),
    {
        match self {
            ApplyError::OutOfBounds { .. } => "validation-failure-out-of-bounds",
            ApplyError::MidCodepointBoundary { .. } => "validation-failure-mid-codepoint-boundary",
            ApplyError::IntraBatchOverlap { .. } => "validation-failure-intra-batch-overlap",
            ApplyError::NothingEdit { .. } => "validation-failure-nothing-edit",
            ApplyError::SwappedEndpoints { .. } => "validation-failure-swapped-endpoints",
            ApplyError::InvalidUtf8 { .. } => "validation-failure-invalid-utf8",
        }
    }

    /// Per-edit input index, `None` for [`ApplyError::IntraBatchOverlap`].
    pub fn edit_index(&self) -> (r: Option<usize>)
        ensures
            r == spec_edit_index(*self),
    {
        match self {
            ApplyError::OutOfBounds { edit_index, .. } => Some(*edit_index),
            ApplyError::MidCodepointBoundary { edit_index, .. } => Some(*edit_index),
            ApplyError::IntraBatchOverlap { .. } => None,
            ApplyError::NothingEdit { edit_index } => Some(*edit_index),
            ApplyError::SwappedEndpoints { edit_index } => Some(*edit_index),
            ApplyError::InvalidUtf8 { edit_index } => Some(*edit_index),
        }
    }

    /// The error's human-readable message.
    pub fn to_display_string(&self) -> (s: String)
        ensures
            s@ == spec_apply_error_message(*self),
    {
        match self {
            ApplyError::OutOfBounds { edit_index, detail } => {
                let mut s = String::from_str("edit ");
                push_decimal(&mut s, *edit_index as u64);
                s.append(" out of bounds: ");
                s.append(detail.as_str());
                s
            },
            ApplyError::MidCodepointBoundary { edit_index, side, line, character } => {
                let mut s = String::from_str("edit ");
                push_decimal(&mut s, *edit_index as u64);
                s.append(" ");
                s.append(side.as_str());
                s.append(" endpoint at line ");
                push_decimal(&mut s, *line as u64);
                s.append(" character ");
                push_decimal(&mut s, *character as u64);
                s.append(" falls mid-codepoint within the line's bytes");
                s
            },
            ApplyError::IntraBatchOverlap { first_index, second_index } => {
                let mut s = String::from_str("edits ");
                push_decimal(&mut s, *first_index as u64);
                s.append(" and ");
                push_decimal(&mut s, *second_index as u64);
                s.append(" overlap within the batch");
                s
            },
            ApplyError::NothingEdit { edit_index } => {
                let mut s = String::from_str("edit ");
                push_decimal(&mut s, *edit_index as u64);
                s.append(" is a nothing-edit (empty range with empty new_text)");
                s
            },
            ApplyError::SwappedEndpoints { edit_index } => {
                let mut s = String::from_str("edit ");
                push_decimal(&mut s, *edit_index as u64);
                s.append(" has start > end (swapped endpoints)");
                s
            },
            ApplyError::InvalidUtf8 { edit_index } => {
                let mut s = String::from_str("edit ");
                push_decimal(&mut s, *edit_index as u64);
                s.append(" new_text is not valid UTF-8");
                s
            },
        }
    }
}

/// Why a single edit is invalid against a buffer.
pub enum EditFault {
    SwappedEndpoints,
    NothingEdit,
    /// `character` exceeds the content length `len` of `line`.
    CharOutOfBounds { side: BoundarySide, character: u32, line: u32, len: usize },
    /// `line` exceeds the buffer's line count `count`.
    LineOutOfBounds { side: BoundarySide, line: u32, count: u32 },
    /// `character` falls inside a multi-byte UTF-8 sequence of `line`.
    MidCodepoint { side: BoundarySide, line: u32, character: u32 },
}

/// The bounds fault of one endpoint, if any.
pub open spec fn bounds_fault(c: Seq<u8>, side: BoundarySide, p: Position) -> Option<EditFault> {
    if p.line < line_count(c) {
        if p.character > line_len(c, p.line as int) {
            Some(EditFault::CharOutOfBounds {
                side,
                character: p.character,
                line: p.line,
                len: line_len(c, p.line as int) as usize,
            })
        } else {
            None
        }
    } else if p.line == line_count(c) && p.character == 0 {
        None
    } else {
        Some(EditFault::LineOutOfBounds { side, line: p.line, count: line_count(c) })
    }
}

/// A byte that is not a UTF-8 continuation byte (`0b10xx_xxxx`).
pub open spec fn is_not_continuation(b: u8) -> bool {
    b & 0xc0 != 0x80
}

/// The codepoint-boundary fault of one in-bounds endpoint, if any. The
/// past-last position, the start and the end of a line are boundaries.
pub open spec fn boundary_fault(c: Seq<u8>, side: BoundarySide, p: Position) -> Option<EditFault> {
    if p.line >= line_count(c) {
        None
    } else {
        let start = line_starts(c)[p.line as int];
        let len = line_len(c, p.line as int);
        if p.character == 0 || p.character >= len || is_not_continuation(c[start + p.character]) {
            None
        } else {
            Some(EditFault::MidCodepoint { side, line: p.line, character: p.character })
        }
    }
}

/// The first failed check of one edit, in the order: swapped endpoints,
/// nothing-edit, start bounds, end bounds, start boundary, end boundary.
pub open spec fn edit_fault(c: Seq<u8>, e: TextEdit) -> Option<EditFault> {
    let r = e.range;
    if pos_lt(r.end, r.start) {
        Some(EditFault::SwappedEndpoints)
    } else if r.start == r.end && e.new_text@.len() == 0 {
        Some(EditFault::NothingEdit)
    } else if bounds_fault(c, BoundarySide::Start, r.start) is Some {
        bounds_fault(c, BoundarySide::Start, r.start)
    } else if bounds_fault(c, BoundarySide::End, r.end) is Some {
        bounds_fault(c, BoundarySide::End, r.end)
    } else if boundary_fault(c, BoundarySide::Start, r.start) is Some {
        boundary_fault(c, BoundarySide::Start, r.start)
    } else {
        boundary_fault(c, BoundarySide::End, r.end)
    }
}

/// Detail text of a character-out-of-bounds error.
pub open spec fn char_oob_detail(side: BoundarySide, character: u32, line: u32, len: usize) -> Seq<char> {
    side_chars(side) + " character "@ + decimal(character as nat) + " exceeds line "@
        + decimal(line as nat) + " content length "@ + decimal(len as nat)
}

/// Detail text of a line-out-of-bounds error.
pub open spec fn line_oob_detail(side: BoundarySide, line: u32, count: u32) -> Seq<char> {
    side_chars(side) + " line "@ + decimal(line as nat) + " exceeds buffer line count "@
        + decimal(count as nat)
}

/// `err` is the error reported for fault `f` of edit `i`.
pub open spec fn error_for(err: ApplyError, i: usize, f: EditFault) -> bool {
    match f {
        EditFault::SwappedEndpoints => err == ApplyError::SwappedEndpoints { edit_index: i },
        EditFault::NothingEdit => err == ApplyError::NothingEdit { edit_index: i },
        EditFault::CharOutOfBounds { side, character, line, len } => match err {
            ApplyError::OutOfBounds { edit_index, detail } =>
                edit_index == i && detail@ == char_oob_detail(side, character, line, len),
            _ => false,
        },
        EditFault::LineOutOfBounds { side, line, count } => match err {
            ApplyError::OutOfBounds { edit_index, detail } =>
                edit_index == i && detail@ == line_oob_detail(side, line, count),
            _ => false,
        },
        EditFault::MidCodepoint { side, line, character } =>
            err == ApplyError::MidCodepointBoundary { edit_index: i, side, line, character },
    }
}

fn check_position_bounds(
    edit_index: usize,
    side: BoundarySide,
    pos: Position,
    idx: &LineIndex,
    content: &[u8],
) -> (r: Result<(), ApplyError>)
    requires
        idx.describes(content@),
    ensures
        match bounds_fault(content@, side, pos) {
            None => r is Ok,
            Some(f) => r is Err && error_for(r->Err_0, edit_index, f),
        },
{
    let count = idx.line_count(Ghost(content@));
    if pos.line < count {
        let len = idx.line_byte_length(content, pos.line);
        if pos.character as usize > len {
            let mut detail = String::from_str(side.as_str());
            detail.append(" character ");
            push_decimal(&mut detail, pos.character as u64);
            detail.append(" exceeds line ");
            push_decimal(&mut detail, pos.line as u64);
            detail.append(" content length ");
            push_decimal(&mut detail, len as u64);
            return Err(ApplyError::OutOfBounds { edit_index, detail });
        }
        Ok(())
    } else if pos.line == count && pos.character == 0 {
        Ok(())
    } else {
        let mut detail = String::from_str(side.as_str());
        detail.append(" line ");
        push_decimal(&mut detail, pos.line as u64);
        detail.append(" exceeds buffer line count ");
        push_decimal(&mut detail, count as u64);
        Err(ApplyError::OutOfBounds { edit_index, detail })
    }
}

fn check_codepoint_boundary(
    edit_index: usize,
    side: BoundarySide,
    pos: Position,
    idx: &LineIndex,
    content: &[u8],
) -> (r: Result<(), ApplyError>)
    requires
        idx.describes(content@),
        bounds_fault(content@, side, pos) is None,
    ensures
        match boundary_fault(content@, side, pos) {
            None => r is Ok,
            Some(f) => r is Err && error_for(r->Err_0, edit_index, f),
        },
{
    let count = idx.line_count(Ghost(content@));
    if pos.line >= count {
        return Ok(());
    }
    proof {
        lemma_line_starts(content@);
        lemma_line_extent(content@, pos.line as int);
    }
    let start = idx.line_start(content, pos.line);
    let len = idx.line_byte_length(content, pos.line);
    let ch = pos.character as usize;
    if ch == 0 || ch >= len {
        return Ok(());
    }
    let total = content.len();
    assert(start + ch < total);
    if content[start + ch] & 0xc0u8 != 0x80u8 {
        return Ok(());
    }
    Err(ApplyError::MidCodepointBoundary { edit_index, side, line: pos.line, character: pos.character })
}

/// Check one edit; the error names the first failed check.
pub fn validate_edit(i: usize, edit: &TextEdit, idx: &LineIndex, content: &[u8]) -> (r: Result<(), ApplyError>)
    requires
        idx.describes(content@),
    ensures
        match edit_fault(content@, *edit) {
            None => r is Ok,
            Some(f) => r is Err && error_for(r->Err_0, i, f),
        },
{
    let r = edit.range;
    if r.end.line < r.start.line || (r.end.line == r.start.line && r.end.character < r.start.character) {
        return Err(ApplyError::SwappedEndpoints { edit_index: i });
    }
    if r.start == r.end && edit.new_text.as_str().is_empty() {
        return Err(ApplyError::NothingEdit { edit_index: i });
    }
    check_position_bounds(i, BoundarySide::Start, r.start, idx, content)?;
    check_position_bounds(i, BoundarySide::End, r.end, idx, content)?;
    check_codepoint_boundary(i, BoundarySide::Start, r.start, idx, content)?;
    check_codepoint_boundary(i, BoundarySide::End, r.end, idx, content)?;
    Ok(())
}

/// A valid edit's endpoints both map to offsets, in order.
pub proof fn lemma_valid_edit_offsets(c: Seq<u8>, e: TextEdit)
    requires
        edit_fault(c, e) is None,
    ensures
        byte_offset(c, e.range.start) is Some,
        byte_offset(c, e.range.end) is Some,
        byte_offset(c, e.range.start).unwrap() <= byte_offset(c, e.range.end).unwrap(),
        byte_offset(c, e.range.end).unwrap() <= c.len(),
{
    crate::buffers::lines::lemma_byte_offset_monotone(c, e.range.start, e.range.end);
    crate::buffers::lines::lemma_byte_offset_in_bounds(c, e.range.end);
}

} // verus!
