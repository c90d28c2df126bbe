//! Batch semantics of text edits: stable ordering by start position,
//! intra-batch overlap, and the byte-level result of applying a valid
//! batch.

use vstd::prelude::*;
use vstd::utf8::encode_utf8;
use crate::buffers::edits::{ApplyError, edit_fault, lemma_valid_edit_offsets};
use crate::buffers::lines::{LineIndex, byte_offset};
use crate::types::edit::{TextEdit, pos_le, pos_lt};

verus! {

/// Edit `i` sorts before edit `j`: earlier start, or equal start and
/// earlier input index.
pub open spec fn key_lt(edits: Seq<TextEdit>, i: int, j: int) -> bool {
    pos_lt(edits[i].range.start, edits[j].range.start)
        || (edits[i].range.start == edits[j].range.start && i < j)
}

/// `order` lists every edit index exactly once, sorted by start
/// position, ties kept in input order (a stable sort by start).
pub open spec fn stable_sorted(edits: Seq<TextEdit>, order: Seq<usize>) -> bool {
    &&& order.len() == edits.len()
    &&& forall|k: int| 0 <= k < order.len() ==> #[trigger] order[k] < edits.len()
    &&& forall|x: usize| x < edits.len() ==> order.contains(x)
    &&& forall|a: int, b: int| 0 <= a < b < order.len() ==> key_lt(edits, #[trigger] order[a] as int, #[trigger] order[b] as int)
}

/// The stable order of a batch by start position.
pub open spec fn sorted_order(edits: Seq<TextEdit>) -> Seq<usize> {
    choose|o: Seq<usize>| stable_sorted(edits, o)
}

/// Two edits adjacent in start order overlap: the second starts before
/// the first ends, or both start at the same position and are not both
/// pure inserts.
pub open spec fn overlaps(a: TextEdit, b: TextEdit) -> bool {
    pos_lt(b.range.start, a.range.end) || (a.range.start == b.range.start && !(a.range.start
        == a.range.end && b.range.start == b.range.end))
}

/// The `k`-th and `k+1`-th edits in `order` overlap.
pub open spec fn adjacent_overlap(edits: Seq<TextEdit>, order: Seq<usize>, k: int) -> bool {
    overlaps(edits[order[k] as int], edits[order[k + 1] as int])
}

/// No two edits adjacent in `order` overlap.
pub open spec fn no_overlap(edits: Seq<TextEdit>, order: Seq<usize>) -> bool {
    forall|k: int| 0 <= k && k + 1 < order.len() ==> !#[trigger] adjacent_overlap(edits, order, k)
}

/// `k` is the first adjacent overlapping pair in `order`.
pub open spec fn first_overlap_at(edits: Seq<TextEdit>, order: Seq<usize>, k: int) -> bool {
    &&& 0 <= k && k + 1 < order.len()
    &&& adjacent_overlap(edits, order, k)
    &&& forall|m: int| 0 <= m < k ==> !#[trigger] adjacent_overlap(edits, order, m)
}

/// The overlap error for the pair at `k`, smaller input index first.
pub open spec fn overlap_error(order: Seq<usize>, k: int) -> ApplyError {
    let a = order[k];
    let b = order[k + 1];
    if a <= b {
        ApplyError::IntraBatchOverlap { first_index: a, second_index: b }
    } else {
        ApplyError::IntraBatchOverlap { first_index: b, second_index: a }
    }
}

/// Every edit of the batch passes the per-edit checks.
pub open spec fn all_valid(c: Seq<u8>, edits: Seq<TextEdit>) -> bool {
    forall|i: int| 0 <= i < edits.len() ==> #[trigger] edit_fault(c, edits[i]) is None
}

/// `i` is the first edit failing a per-edit check.
pub open spec fn first_fault_at(c: Seq<u8>, edits: Seq<TextEdit>, i: int) -> bool {
    &&& 0 <= i < edits.len()
    &&& edit_fault(c, edits[i]) is Some
    &&& forall|j: int| 0 <= j < i ==> #[trigger] edit_fault(c, edits[j]) is None
}

/// The UTF-8 bytes of an edit's replacement text.
pub open spec fn text_bytes(e: TextEdit) -> Seq<u8> {
    encode_utf8(e.new_text@)
}

/// One step of a plan: replace `c[start..end]` by `text`.
pub struct Splice {
    pub start: int,
    pub end: int,
    pub text: Seq<u8>,
}

/// The edits of a batch, in `order`, as byte-level splices of `c`.
pub open spec fn plan_of(c: Seq<u8>, edits: Seq<TextEdit>, order: Seq<usize>) -> Seq<Splice> {
    Seq::new(
        order.len(),
        |k: int|
            Splice {
                start: byte_offset(c, edits[order[k] as int].range.start).unwrap(),
                end: byte_offset(c, edits[order[k] as int].range.end).unwrap(),
                text: text_bytes(edits[order[k] as int]),
            },
    )
}

/// The bytes of `c` from offset `from` on, with every splice of `plan`
/// (ordered, non-overlapping, all at or after `from`) applied.
pub open spec fn stitch(c: Seq<u8>, plan: Seq<Splice>, from: int) -> Seq<u8>
    decreases plan.len(),
{
    if plan.len() == 0 {
        c.subrange(from, c.len() as int)
    } else {
        c.subrange(from, plan[0].start) + plan[0].text + stitch(c, plan.drop_first(), plan[0].end)
    }
}

/// The content that results from applying the batch `edits` to `c`.
pub open spec fn spec_apply(c: Seq<u8>, edits: Seq<TextEdit>) -> Seq<u8> {
    stitch(c, plan_of(c, edits, sorted_order(edits)), 0)
}

/// A batch of one edit replaces the bytes between the old offsets of its
/// start and end by its text.
pub proof fn lemma_apply_one(c: Seq<u8>, e: TextEdit)
    ensures
        spec_apply(c, seq![e]) == c.subrange(0, byte_offset(c, e.range.start).unwrap()) + text_bytes(e) + c.subrange(
            byte_offset(c, e.range.end).unwrap(),
            c.len() as int,
        ),
{
    let edits = seq![e];
    let o = seq![0usize];
    assert(stable_sorted(edits, o)) by {
        assert forall|x: usize| x < edits.len() implies o.contains(x) by {
            assert(o[0] == x);
        }
    }
    lemma_sorted_unique(edits, sorted_order(edits), o);
    let plan = plan_of(c, edits, o);
    assert(plan.drop_first().len() == 0);
    let a = byte_offset(c, e.range.start).unwrap();
    let b = byte_offset(c, e.range.end).unwrap();
    assert(stitch(c, plan, 0) == c.subrange(0, a) + text_bytes(e) + stitch(c, plan.drop_first(), b));
    assert(stitch(c, plan.drop_first(), b) == c.subrange(b, c.len() as int));
}

/// A batch of two edits takes both offsets in the old content and splices
/// in start order, whatever the order of the input: the edit that starts
/// first comes first.
pub proof fn lemma_apply_two(c: Seq<u8>, first: TextEdit, second: TextEdit)
    requires
        pos_lt(first.range.start, second.range.start),
    ensures
        spec_apply(c, seq![first, second]) == spec_apply(c, seq![second, first]),
        spec_apply(c, seq![first, second]) == c.subrange(0, byte_offset(c, first.range.start).unwrap())
            + text_bytes(first) + c.subrange(
            byte_offset(c, first.range.end).unwrap(),
            byte_offset(c, second.range.start).unwrap(),
        ) + text_bytes(second) + c.subrange(byte_offset(c, second.range.end).unwrap(), c.len() as int),
{
    let e1 = seq![first, second];
    let o1 = seq![0usize, 1usize];
    assert(stable_sorted(e1, o1)) by {
        assert forall|x: usize| x < e1.len() implies o1.contains(x) by {
            if x == 0 {
                assert(o1[0] == x);
            } else {
                assert(o1[1] == x);
            }
        }
    }
    lemma_sorted_unique(e1, sorted_order(e1), o1);
    let e2 = seq![second, first];
    let o2 = seq![1usize, 0usize];
    assert(stable_sorted(e2, o2)) by {
        assert forall|x: usize| x < e2.len() implies o2.contains(x) by {
            if x == 0 {
                assert(o2[1] == x);
            } else {
                assert(o2[0] == x);
            }
        }
    }
    lemma_sorted_unique(e2, sorted_order(e2), o2);
    let p1 = plan_of(c, e1, o1);
    let p2 = plan_of(c, e2, o2);
    assert(p1 =~= p2);
    assert(p1.drop_first().drop_first().len() == 0);
    assert(p1.drop_first()[0] == p1[1]);
    let a = byte_offset(c, first.range.start).unwrap();
    let b = byte_offset(c, first.range.end).unwrap();
    let s2 = byte_offset(c, second.range.start).unwrap();
    let d = byte_offset(c, second.range.end).unwrap();
    assert(stitch(c, p1, 0) == c.subrange(0, a) + text_bytes(first) + stitch(c, p1.drop_first(), b));
    assert(stitch(c, p1.drop_first(), b) == c.subrange(b, s2) + text_bytes(second) + stitch(
        c,
        p1.drop_first().drop_first(),
        d,
    ));
    assert(stitch(c, p1, 0) =~= c.subrange(0, a) + text_bytes(first) + c.subrange(b, s2) + text_bytes(second)
        + c.subrange(d, c.len() as int));
}

/// Two stably sorted orders of the same batch are equal.
pub proof fn lemma_sorted_unique(edits: Seq<TextEdit>, o1: Seq<usize>, o2: Seq<usize>)
    requires
        stable_sorted(edits, o1),
        stable_sorted(edits, o2),
    ensures
        o1 == o2,
{
    lemma_sorted_seq_unique(edits, o1, o2);
}

proof fn lemma_sorted_seq_unique(edits: Seq<TextEdit>, s1: Seq<usize>, s2: Seq<usize>)
    requires
        forall|k: int| 0 <= k < s1.len() ==> #[trigger] s1[k] < edits.len(),
        forall|k: int| 0 <= k < s2.len() ==> #[trigger] s2[k] < edits.len(),
        forall|x: usize| s1.contains(x) <==> s2.contains(x),
        forall|a: int, b: int| 0 <= a < b < s1.len() ==> key_lt(edits, #[trigger] s1[a] as int, #[trigger] s1[b] as int),
        forall|a: int, b: int| 0 <= a < b < s2.len() ==> key_lt(edits, #[trigger] s2[a] as int, #[trigger] s2[b] as int),
    ensures
        s1 =~= s2,
    decreases s1.len(),
{
    if s1.len() == 0 {
        if s2.len() > 0 {
            assert(s2.contains(s2[0]));
        }
    } else {
        assert(s1.contains(s1[0]));
        assert(s2.len() > 0);
        let x = s1[0];
        let y = s2[0];
        if x != y {
            assert(s2.contains(y));
            assert(s1.contains(y));
            let i = choose|i: int| 0 <= i < s1.len() && s1[i] == y;
            assert(s2.contains(x));
            let j = choose|j: int| 0 <= j < s2.len() && s2[j] == x;
            assert(i > 0);
            assert(j > 0);
            assert(key_lt(edits, x as int, y as int));
            assert(key_lt(edits, y as int, x as int));
            assert(false);
        }
        let r1 = s1.drop_first();
        let r2 = s2.drop_first();
        assert forall|z: usize| r1.contains(z) <==> r2.contains(z) by {
            if r1.contains(z) {
                let i = choose|i: int| 0 <= i < r1.len() && r1[i] == z;
                assert(s1[i + 1] == z);
                assert(key_lt(edits, s1[0] as int, s1[i + 1] as int));
                assert(z != x);
                assert(s1.contains(z));
                assert(s2.contains(z));
                let j = choose|j: int| 0 <= j < s2.len() && s2[j] == z;
                assert(j != 0);
                assert(r2[j - 1] == z);
            }
            if r2.contains(z) {
                let i = choose|i: int| 0 <= i < r2.len() && r2[i] == z;
                assert(s2[i + 1] == z);
                assert(key_lt(edits, s2[0] as int, s2[i + 1] as int));
                assert(z != y);
                assert(s2.contains(z));
                assert(s1.contains(z));
                let j = choose|j: int| 0 <= j < s1.len() && s1[j] == z;
                assert(j != 0);
                assert(r1[j - 1] == z);
            }
        }
        assert forall|a: int, b: int| 0 <= a < b < r1.len() implies key_lt(edits, #[trigger] r1[a] as int, #[trigger] r1[b] as int) by {
            assert(r1[a] == s1[a + 1] && r1[b] == s1[b + 1]);
        }
        assert forall|a: int, b: int| 0 <= a < b < r2.len() implies key_lt(edits, #[trigger] r2[a] as int, #[trigger] r2[b] as int) by {
            assert(r2[a] == s2[a + 1] && r2[b] == s2[b + 1]);
        }
        lemma_sorted_seq_unique(edits, r1, r2);
        assert(s1 =~= seq![x] + r1);
        assert(s2 =~= seq![y] + r2);
    }
}

/// Stable insertion sort of the batch's indices by start position.
pub fn sort_by_start(edits: &[TextEdit]) -> (order: Vec<usize>)
    ensures
        stable_sorted(edits@, order@),
        order@ == sorted_order(edits@),
{
    let n = edits.len();
    let mut order: Vec<usize> = Vec::new();
    let mut i: usize = 0;
    while i < n
        invariant
            n == edits@.len(),
            i <= n,
            order@.len() == i,
            forall|k: int| 0 <= k < order@.len() ==> #[trigger] order@[k] < i,
            forall|x: usize| x < i ==> order@.contains(x),
            forall|a: int, b: int| 0 <= a < b < order@.len() ==> key_lt(edits@, #[trigger] order@[a] as int, #[trigger] order@[b] as int),
        decreases n - i,
    {
        let si = edits[i].range.start;
        let mut p: usize = 0;
        while p < order.len() && crate::types::edit::position_le(edits[order[p]].range.start, si)
            invariant
                n == edits@.len(),
                i < n,
                si == edits@[i as int].range.start,
                p <= order@.len(),
                order@.len() == i,
                forall|k: int| 0 <= k < order@.len() ==> #[trigger] order@[k] < i,
                forall|q: int| 0 <= q < p ==> pos_le(#[trigger] edits@[order@[q] as int].range.start, si),
            decreases order@.len() - p,
        {
            p = p + 1;
        }
        let ghost old_order = order@;
        proof {
            if p < order@.len() {
                assert(pos_lt(si, edits@[order@[p as int] as int].range.start));
                assert forall|q: int| p <= q < old_order.len() implies pos_lt(si, #[trigger] edits@[old_order[q] as int].range.start) by {
                    if q > p {
                        assert(key_lt(edits@, old_order[p as int] as int, old_order[q] as int));
                    }
                }
            }
        }
        order.insert(p, i);
        proof {
            assert(order@ == old_order.insert(p as int, i));
            assert forall|a: int, b: int| 0 <= a < b < order@.len() implies key_lt(edits@, #[trigger] order@[a] as int, #[trigger] order@[b] as int) by {
                if b < p {
                    assert(order@[a] == old_order[a] && order@[b] == old_order[b]);
                } else if b == p {
                    assert(order@[a] == old_order[a]);
                    assert(pos_le(edits@[old_order[a] as int].range.start, si));
                } else if a < p {
                    assert(order@[a] == old_order[a] && order@[b] == old_order[b - 1]);
                    assert(key_lt(edits@, old_order[a] as int, old_order[b - 1] as int));
                } else if a == p {
                    assert(order@[b] == old_order[b - 1]);
                    assert(pos_lt(si, edits@[old_order[b - 1] as int].range.start));
                } else {
                    assert(order@[a] == old_order[a - 1] && order@[b] == old_order[b - 1]);
                }
            }
            assert forall|x: usize| x < i + 1 implies order@.contains(x) by {
                if x == i {
                    assert(order@[p as int] == i);
                } else {
                    assert(old_order.contains(x));
                    let q = choose|q: int| 0 <= q < old_order.len() && old_order[q] == x;
                    if q < p {
                        assert(order@[q] == x);
                    } else {
                        assert(order@[q + 1] == x);
                    }
                }
            }
            assert forall|k: int| 0 <= k < order@.len() implies #[trigger] order@[k] < i + 1 by {
                if k < p {
                    assert(order@[k] == old_order[k]);
                } else if k > p {
                    assert(order@[k] == old_order[k - 1]);
                }
            }
        }
        i = i + 1;
    }
    proof {
        assert(stable_sorted(edits@, order@));
        lemma_sorted_unique(edits@, order@, sorted_order(edits@));
    }
    order
}

/// Find the first adjacent overlapping pair in `order`, if any.
pub fn find_overlap(edits: &[TextEdit], order: &Vec<usize>) -> (r: Option<usize>)
    requires
        forall|k: int| 0 <= k < order@.len() ==> #[trigger] order@[k] < edits@.len(),
    ensures
        match r {
            None => no_overlap(edits@, order@),
            Some(k) => first_overlap_at(edits@, order@, k as int),
        },
{
    let n = order.len();
    if n < 2 {
        return None;
    }
    let mut k: usize = 0;
    while k + 1 < n
        invariant
            n == order@.len(),
            n >= 2,
            k + 1 <= n,
            forall|k2: int| 0 <= k2 < order@.len() ==> #[trigger] order@[k2] < edits@.len(),
            forall|m: int| 0 <= m < k ==> !#[trigger] adjacent_overlap(edits@, order@, m),
        decreases n - k,
    {
        let first = &edits[order[k]];
        let second = &edits[order[k + 1]];
        let fs = first.range.start;
        let fe = first.range.end;
        let ss = second.range.start;
        let se = second.range.end;
        let first_is_insert = fs == fe;
        let second_is_insert = ss == se;
        let strictly_overlaps = ss.line < fe.line || (ss.line == fe.line && ss.character < fe.character);
        let tied_starts = fs == ss;
        let tied_with_non_insert = tied_starts && !(first_is_insert && second_is_insert);
        if strictly_overlaps || tied_with_non_insert {
            assert(adjacent_overlap(edits@, order@, k as int));
            return Some(k);
        }
        k = k + 1;
    }
    None
}

/// Build `stitch(c, plan, 0)` for the plan of an all-valid,
/// non-overlapping batch in stable order.
pub fn apply_in_order(content: &[u8], idx: &LineIndex, edits: &[TextEdit], order: &Vec<usize>) -> (out: Vec<u8>)
    requires
        idx.describes(content@),
        all_valid(content@, edits@),
        stable_sorted(edits@, order@),
        no_overlap(edits@, order@),
    ensures
        out@ == stitch(content@, plan_of(content@, edits@, order@), 0),
{
    let ghost c = content@;
    let ghost plan = plan_of(c, edits@, order@);
    proof {
        assert forall|k: int| 0 <= k < plan.len() implies #[trigger] plan[k].start <= plan[k].end
            && plan[k].end <= c.len() by {
            lemma_valid_edit_offsets(c, edits@[order@[k] as int]);
        }
        assert forall|k: int| 0 <= k && k + 1 < plan.len() implies #[trigger] plan[k].end <= plan[k + 1].start by {
            let a = edits@[order@[k] as int];
            let b = edits@[order@[k + 1] as int];
            lemma_valid_edit_offsets(c, a);
            lemma_valid_edit_offsets(c, b);
            assert(!adjacent_overlap(edits@, order@, k));
            crate::buffers::lines::lemma_byte_offset_monotone(c, a.range.end, b.range.start);
        }
        if plan.len() > 0 {
            lemma_valid_edit_offsets(c, edits@[order@[0] as int]);
            crate::buffers::lines::lemma_byte_offset_in_bounds(c, edits@[order@[0] as int].range.start);
        }
    }
    let mut out: Vec<u8> = Vec::new();
    let mut prev: usize = 0;
    let n = order.len();
    let mut k: usize = 0;
    assert(plan.subrange(0, n as int) =~= plan);
    assert(out@ + stitch(c, plan.subrange(0, n as int), 0) =~= stitch(c, plan, 0));
    while k < n
        invariant
            c == content@,
            plan == plan_of(c, edits@, order@),
            n == order@.len(),
            n == plan.len(),
            idx.describes(c),
            all_valid(c, edits@),
            stable_sorted(edits@, order@),
            k <= n,
            prev <= c.len(),
            forall|j: int| 0 <= j < plan.len() ==> #[trigger] plan[j].start <= plan[j].end && plan[j].end <= c.len(),
            forall|j: int| 0 <= j && j + 1 < plan.len() ==> #[trigger] plan[j].end <= plan[j + 1].start,
            k < n ==> prev <= plan[k as int].start,
            out@ + stitch(c, plan.subrange(k as int, n as int), prev as int) == stitch(c, plan, 0),
        decreases n - k,
    {
        let e = &edits[order[k]];
        proof {
            lemma_valid_edit_offsets(c, edits@[order@[k as int] as int]);
        }
        let s = idx.byte_offset(content, e.range.start).unwrap();
        let en = idx.byte_offset(content, e.range.end).unwrap();
        let ghost out0 = out@;
        let mut j: usize = prev;
        while j < s
            invariant
                prev <= j <= s,
                s <= c.len(),
                c == content@,
                out@ == out0 + c.subrange(prev as int, j as int),
            decreases s - j,
        {
            out.push(content[j]);
            j = j + 1;
            assert(out@ =~= out0 + c.subrange(prev as int, j as int));
        }
        let t = e.new_text.as_str().as_bytes();
        let ghost out1 = out@;
        let mut q: usize = 0;
        while q < t.len()
            invariant
                q <= t@.len(),
                out@ == out1 + t@.subrange(0, q as int),
            decreases t@.len() - q,
        {
            out.push(t[q]);
            q = q + 1;
            assert(out@ =~= out1 + t@.subrange(0, q as int));
        }
        proof {
            let rest = plan.subrange(k as int, n as int);
            assert(rest[0] == plan[k as int]);
            assert(rest.drop_first() =~= plan.subrange(k + 1, n as int));
            assert(t@ =~= t@.subrange(0, t@.len() as int));
            assert(out@ =~= out0 + c.subrange(prev as int, s as int) + plan[k as int].text);
            assert(stitch(c, rest, prev as int) == c.subrange(prev as int, rest[0].start) + rest[0].text
                + stitch(c, rest.drop_first(), rest[0].end));
        }
        prev = en;
        k = k + 1;
    }
    let total = content.len();
    let ghost out2 = out@;
    let mut j: usize = prev;
    while j < total
        invariant
            prev <= j <= total,
            total == c.len(),
            c == content@,
            out@ == out2 + c.subrange(prev as int, j as int),
        decreases total - j,
    {
        out.push(content[j]);
        j = j + 1;
        assert(out@ =~= out2 + c.subrange(prev as int, j as int));
    }
    proof {
        assert(plan.subrange(n as int, n as int).len() == 0);
    }
    out
}

} // verus!
