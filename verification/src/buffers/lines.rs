//! Line structure of a byte buffer: where each line starts, how long its
//! content is, and how `(line, character)` positions map to byte offsets.
//!
//! Lines are separated by `\n`. A trailing `\n` terminates the last line
//! and does not open a further one, so `"abc\n"` has one line and the
//! empty buffer has one empty line. The position just past the last line,
//! `(line_count, 0)`, is the "past-last" position and maps to the end of
//! the buffer.

use vstd::prelude::*;
use crate::types::edit::{Position, pos_le, pos_lt};

verus! {

/// Start offsets of the lines of `c.subrange(0, i)`, including the
/// (possibly empty) line opened by a `\n` at `i - 1`.
pub open spec fn raw_line_starts(c: Seq<u8>, i: nat) -> Seq<int>
    decreases i,
{
    if i == 0 {
        seq![0int]
    } else {
        let s = raw_line_starts(c, (i - 1) as nat);
        if c[i - 1] == 10u8 {
            s.push(i as int)
        } else {
            s
        }
    }
}

/// Whether the buffer's last byte is `\n`.
pub open spec fn ends_with_newline(c: Seq<u8>) -> bool {
    c.len() > 0 && c[c.len() - 1] == 10u8
}

/// Start offset of every line of `c`: `0`, then one past every `\n`
/// except a trailing one.
pub open spec fn line_starts(c: Seq<u8>) -> Seq<int> {
    let raw = raw_line_starts(c, c.len());
    if ends_with_newline(c) {
        raw.drop_last()
    } else {
        raw
    }
}

/// Number of lines, saturated at `u32::MAX`.
pub open spec fn line_count(c: Seq<u8>) -> u32 {
    let n = line_starts(c).len();
    if n > u32::MAX { u32::MAX } else { n as u32 }
}

/// Byte length of line `l`'s content, excluding its terminating `\n`.
pub open spec fn line_len(c: Seq<u8>, l: int) -> int {
    let st = line_starts(c);
    if l + 1 < st.len() {
        st[l + 1] - 1 - st[l]
    } else if ends_with_newline(c) {
        c.len() - 1 - st[l]
    } else {
        c.len() - st[l]
    }
}

/// The byte offset of `p` in `c`, or `None` when `p` lies outside the
/// buffer. The past-last position `(line_count, 0)` maps to `c.len()`.
pub open spec fn byte_offset(c: Seq<u8>, p: Position) -> Option<int> {
    if p.line < line_count(c) {
        if p.character <= line_len(c, p.line as int) {
            Some(line_starts(c)[p.line as int] + p.character)
        } else {
            None
        }
    } else if p.line == line_count(c) && p.character == 0 {
        Some(c.len() as int)
    } else {
        None
    }
}

pub proof fn lemma_raw_line_starts(c: Seq<u8>, i: nat)
    requires
        i <= c.len(),
    ensures
        raw_line_starts(c, i).len() >= 1,
        raw_line_starts(c, i).len() <= i + 1,
        raw_line_starts(c, i)[0] == 0,
        forall|j: int| 0 <= j < raw_line_starts(c, i).len() ==> 0 <= #[trigger] raw_line_starts(c, i)[j] <= i,
        forall|a: int, b: int| 0 <= a < b < raw_line_starts(c, i).len()
            ==> raw_line_starts(c, i)[a] < raw_line_starts(c, i)[b],
        forall|j: int| 1 <= j < raw_line_starts(c, i).len()
            ==> c[#[trigger] raw_line_starts(c, i)[j] - 1] == 10u8,
        i > 0 && c[i - 1] == 10u8 ==> raw_line_starts(c, i).last() == i,
    decreases i,
{
    if i > 0 {
        lemma_raw_line_starts(c, (i - 1) as nat);
    }
}

/// Facts about `line_starts`: non-empty, starts at `0`, strictly
/// increasing and within the buffer.
pub proof fn lemma_line_starts(c: Seq<u8>)
    ensures
        line_starts(c).len() >= 1,
        line_starts(c).len() <= c.len() + 1,
        line_starts(c)[0] == 0,
        forall|a: int, b: int| 0 <= a < b < line_starts(c).len() ==> line_starts(c)[a] < line_starts(c)[b],
        forall|j: int| 0 <= j < line_starts(c).len() ==> 0 <= #[trigger] line_starts(c)[j] <= c.len(),
{
    let raw = raw_line_starts(c, c.len());
    lemma_raw_line_starts(c, c.len());
    if ends_with_newline(c) {
        assert(raw.last() == c.len());
    }
}

/// Line `l`'s content lies within the buffer and ends before the next
/// line starts.
pub proof fn lemma_line_extent(c: Seq<u8>, l: int)
    requires
        0 <= l < line_starts(c).len(),
    ensures
        0 <= line_starts(c)[l],
        0 <= line_len(c, l),
        line_starts(c)[l] + line_len(c, l) <= c.len(),
        l + 1 < line_starts(c).len() ==> line_starts(c)[l] + line_len(c, l) < line_starts(c)[l + 1],
{
    let raw = raw_line_starts(c, c.len());
    lemma_raw_line_starts(c, c.len());
    lemma_line_starts(c);
    let st = line_starts(c);
    if l + 1 < st.len() {
        assert(st[l] < st[l + 1]);
        assert(st[l + 1] <= c.len());
    } else if ends_with_newline(c) {
        assert(raw.last() == c.len());
        assert(raw[l] < raw[l + 1]);
    } else {
        assert(st[l] <= c.len());
    }
}

/// Offsets are monotone in positions: a valid position not after another
/// valid position maps to an offset not after the other's.
pub proof fn lemma_byte_offset_monotone(c: Seq<u8>, p: Position, q: Position)
    requires
        byte_offset(c, p) is Some,
        byte_offset(c, q) is Some,
        pos_le(p, q),
    ensures
        byte_offset(c, p).unwrap() <= byte_offset(c, q).unwrap(),
{
    lemma_line_starts(c);
    let st = line_starts(c);
    if p.line < line_count(c) {
        lemma_line_extent(c, p.line as int);
    }
    if p.line < q.line {
        let l1 = p.line as int;
        if q.line < line_count(c) {
            assert(st[l1] + line_len(c, l1) < st[l1 + 1]);
            if l1 + 1 < q.line {
                assert(st[l1 + 1] < st[q.line as int]);
            }
        }
    }
}

/// Every valid position maps within the buffer.
pub proof fn lemma_byte_offset_in_bounds(c: Seq<u8>, p: Position)
    requires
        byte_offset(c, p) is Some,
    ensures
        0 <= byte_offset(c, p).unwrap() <= c.len(),
{
    lemma_line_starts(c);
    if p.line < line_count(c) {
        lemma_line_extent(c, p.line as int);
    }
}

/// Precomputed line starts of a buffer.
pub struct LineIndex {
    line_starts: Vec<usize>,
    line_count: u32,
}

impl LineIndex {
    /// The index describes `c`.
    pub closed spec fn describes(&self, c: Seq<u8>) -> bool {
        &&& self.line_starts@.len() == line_starts(c).len()
        &&& forall|j: int| 0 <= j < self.line_starts@.len() ==> self.line_starts@[j] as int == line_starts(c)[j]
        &&& self.line_count == line_count(c)
    }

    /// Scan `content` once and record where every line starts.
    pub fn build(content: &[u8]) -> (idx: Self)
        ensures
            idx.describes(content@),
    {
        let ghost c = content@;
        let mut starts: Vec<usize> = Vec::new();
        starts.push(0);
        let mut i: usize = 0;
        while i < content.len()
            invariant
                i <= content.len(),
                c == content@,
                starts@.len() == raw_line_starts(c, i as nat).len(),
                forall|j: int| 0 <= j < starts@.len() ==> starts@[j] as int == raw_line_starts(c, i as nat)[j],
            decreases content.len() - i,
        {
            if content[i] == 10u8 {
                starts.push(i + 1);
            }
            i = i + 1;
            proof {
                assert(raw_line_starts(c, i as nat) == if c[i - 1] == 10u8 {
                    raw_line_starts(c, (i - 1) as nat).push(i as int)
                } else {
                    raw_line_starts(c, (i - 1) as nat)
                });
            }
        }
        proof {
            lemma_raw_line_starts(c, c.len());
        }
        if content.len() > 0 && content[content.len() - 1] == 10u8 {
            starts.pop();
        }
        let n = starts.len();
        let line_count: u32 = if n > 0xffff_ffffusize { 0xffff_ffffu32 } else { n as u32 };
        let idx = LineIndex { line_starts: starts, line_count };
        assert(idx.describes(c));
        idx
    }

    /// Number of lines (saturated at `u32::MAX`).
    pub fn line_count(&self, Ghost(c): Ghost<Seq<u8>>) -> (n: u32)
        requires
            self.describes(c),
        ensures
            n == line_count(c),
    {
        self.line_count
    }

    /// Byte length of `line`'s content, excluding a terminating `\n`.
    pub fn line_byte_length(&self, content: &[u8], line: u32) -> (len: usize)
        requires
            self.describes(content@),
            line < line_count(content@),
        ensures
            len as int == line_len(content@, line as int),
    {
        proof {
            lemma_line_starts(content@);
            lemma_line_extent(content@, line as int);
        }
        let line_idx = line as usize;
        let start = self.line_starts[line_idx];
        if line_idx + 1 < self.line_starts.len() {
            self.line_starts[line_idx + 1] - 1 - start
        } else if content.len() > 0 && content[content.len() - 1] == 10u8 {
            content.len() - 1 - start
        } else {
            content.len() - start
        }
    }

    /// Start offset of `line`.
    pub fn line_start(&self, content: &[u8], line: u32) -> (s: usize)
        requires
            self.describes(content@),
            line < line_count(content@),
        ensures
            s as int == line_starts(content@)[line as int],
    {
        self.line_starts[line as usize]
    }

    /// Convert a position to a byte offset; `None` when it lies outside
    /// the buffer.
    pub fn byte_offset(&self, content: &[u8], pos: Position) -> (r: Option<usize>)
        requires
            self.describes(content@),
        ensures
            r is Some <==> byte_offset(content@, pos) is Some,
            r is Some ==> r.unwrap() as int == byte_offset(content@, pos).unwrap(),
    {
        proof {
            lemma_line_starts(content@);
            if pos.line < line_count(content@) {
                lemma_line_extent(content@, pos.line as int);
            }
        }
        if pos.line < self.line_count {
            let line_start = self.line_starts[pos.line as usize];
            let len = self.line_byte_length(content, pos.line);
            let ch = pos.character as usize;
            if ch <= len {
                let total = content.len();
                assert(line_start as int == line_starts(content@)[pos.line as int]);
                assert(line_start as int + ch as int <= total as int);
                Some(line_start + ch)
            } else {
                None
            }
        } else if pos.line == self.line_count && pos.character == 0 {
            Some(content.len())
        } else {
            None
        }
    }
}

} // verus!
