//! Text-edit primitives: `Position`, `Range`, `TextEdit`.
//!
//! Coordinates are LSP-style with one departure: `Position.character`
//! counts UTF-8 bytes within the line's content. Lines are separated by
//! `\n`; a `\r` before it stays the last byte of the preceding line.

use vstd::prelude::*;

verus! {

/// A 2D coordinate within a buffer: zero-based line index and zero-based
/// UTF-8 byte offset within that line's content. Ordered
/// lexicographically on `(line, character)`.
#[derive(Clone, Copy, Debug, PartialEq, Eq, Structural, Hash, PartialOrd, Ord)]
pub struct Position {
    pub line: u32,
    pub character: u32,
}

/// Lexicographic strict order on `(line, character)`.
pub open spec fn pos_lt(a: Position, b: Position) -> bool {
    a.line < b.line || (a.line == b.line && a.character < b.character)
}

/// Lexicographic order on `(line, character)`.
pub open spec fn pos_le(a: Position, b: Position) -> bool {
    pos_lt(a, b) || a == b
}

/// Lexicographic strict comparison of two positions.
pub fn position_lt(a: Position, b: Position) -> (r: bool)
    ensures
        r == pos_lt(a, b),
{
    a.line < b.line || (a.line == b.line && a.character < b.character)
}

/// Lexicographic comparison of two positions.
pub fn position_le(a: Position, b: Position) -> (r: bool)
    ensures
        r == pos_le(a, b),
{
    a.line < b.line || (a.line == b.line && a.character <= b.character)
}

/// A half-open interval on buffer coordinates: inclusive `start`,
/// exclusive `end`. `start == end` is an insertion cursor.
#[derive(Clone, Copy, Debug, PartialEq, Eq, Structural)]
pub struct Range {
    pub start: Position,
    pub end: Position,
}

/// One edit: replace the bytes within `range` by the UTF-8 bytes of
/// `new_text`.
#[derive(Debug, PartialEq, Eq)]
pub struct TextEdit {
    pub range: Range,
    pub new_text: String,
}

impl Clone for TextEdit {
    fn clone(&self) -> (r: Self)
        ensures
            r == *self,
    {
        TextEdit { range: self.range, new_text: self.new_text.clone() }
    }
}

} // verus!
