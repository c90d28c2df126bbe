//! Unbounded in-process channels used to deliver fact and event
//! notifications to subscribers.

use vstd::prelude::*;

verus! {

/// `tokio::sync::mpsc::UnboundedSender`, carried opaquely.
#[verifier::external_type_specification]
#[verifier::external_body]
#[verifier::reject_recursive_types(T)]
pub struct ExUnboundedSender<T>(tokio::sync::mpsc::UnboundedSender<T>);

/// `tokio::sync::mpsc::UnboundedReceiver`, carried opaquely.
#[verifier::external_type_specification]
#[verifier::external_body]
#[verifier::reject_recursive_types(T)]
pub struct ExUnboundedReceiver<T>(tokio::sync::mpsc::UnboundedReceiver<T>);

/// `tokio::sync::mpsc::unbounded_channel`: a fresh connected pair.
/// Nothing is stated of the pair.
#[verifier::external_body]
pub(crate) fn unbounded_channel<T>() -> (tokio::sync::mpsc::UnboundedSender<T>, tokio::sync::mpsc::UnboundedReceiver<T>) {
    tokio::sync::mpsc::unbounded_channel()
}

/// `UnboundedSender::send`: `true` when the value was queued, `false`
/// when the receiving half has been dropped. Which of the two happens
/// depends on the receiver's owner, so nothing is stated of it.
#[verifier::external_body]
pub(crate) fn send_unbounded<T>(tx: &tokio::sync::mpsc::UnboundedSender<T>, value: T) -> bool {
    tx.send(value).is_ok()
}

/// The items of `s` whose flag in `keep` is set, in their order.
pub open spec fn kept_by<T>(s: Seq<T>, keep: Seq<bool>) -> Seq<T>
    decreases s.len(),
{
    if s.len() == 0 {
        Seq::empty()
    } else if keep[s.len() - 1] {
        kept_by(s.drop_last(), keep).push(s.last())
    } else {
        kept_by(s.drop_last(), keep)
    }
}

/// A fan-out keeps, in order, the receivers flagged in `keep`: one flag
/// per receiver, set for every receiver that `targeted` leaves out.
pub open spec fn fanned_out<T>(before: Seq<T>, after: Seq<T>, targeted: spec_fn(T) -> bool) -> bool {
    exists|keep: Seq<bool>|
        #![trigger kept_by(before, keep)]
        keep.len() == before.len() && after == kept_by(before, keep) && forall|j: int|
            0 <= j < before.len() && !targeted(before[j]) ==> #[trigger] keep[j]
}

/// Flags past the end of `s` do not matter.
pub proof fn lemma_kept_by_flags<T>(s: Seq<T>, k1: Seq<bool>, k2: Seq<bool>)
    requires
        forall|i: int| 0 <= i < s.len() ==> k1[i] == k2[i],
    ensures
        kept_by(s, k1) == kept_by(s, k2),
    decreases s.len(),
{
    if s.len() > 0 {
        lemma_kept_by_flags(s.drop_last(), k1, k2);
    }
}

/// Deciding one more item extends the kept sequence by it, or not.
pub proof fn lemma_kept_by_step<T>(s: Seq<T>, n: int, keep: Seq<bool>, b: bool)
    requires
        0 <= n < s.len(),
        keep.len() == n,
    ensures
        kept_by(s.subrange(0, n + 1), keep.push(b)) == if b {
            kept_by(s.subrange(0, n), keep).push(s[n])
        } else {
            kept_by(s.subrange(0, n), keep)
        },
{
    let p1 = s.subrange(0, n + 1);
    assert(p1.drop_last() =~= s.subrange(0, n));
    lemma_kept_by_flags(s.subrange(0, n), keep.push(b), keep);
}

/// The items of `s` that `targeted` selects, in order.
pub open spec fn targeted_in<T>(s: Seq<T>, targeted: spec_fn(T) -> bool) -> Seq<T>
    decreases s.len(),
{
    if s.len() == 0 {
        Seq::empty()
    } else if targeted(s.last()) {
        targeted_in(s.drop_last(), targeted).push(s.last())
    } else {
        targeted_in(s.drop_last(), targeted)
    }
}

/// Looking at one more item extends the selection by it, or not.
pub proof fn lemma_targeted_in_step<T>(s: Seq<T>, n: int, targeted: spec_fn(T) -> bool)
    requires
        0 <= n < s.len(),
    ensures
        targeted_in(s.subrange(0, n + 1), targeted) == if targeted(s[n]) {
            targeted_in(s.subrange(0, n), targeted).push(s[n])
        } else {
            targeted_in(s.subrange(0, n), targeted)
        },
{
    assert(s.subrange(0, n + 1).drop_last() =~= s.subrange(0, n));
}

/// Every item that `targeted` selects is in the selection.
pub proof fn lemma_targeted_in_contains<T>(s: Seq<T>, targeted: spec_fn(T) -> bool, j: int)
    requires
        0 <= j < s.len(),
        targeted(s[j]),
    ensures
        targeted_in(s, targeted).contains(s[j]),
    decreases s.len(),
{
    let t = targeted_in(s.drop_last(), targeted);
    if j == s.len() - 1 {
        assert(t.push(s.last())[t.len() as int] == s[j]);
    } else {
        lemma_targeted_in_contains(s.drop_last(), targeted, j);
        assert(s.drop_last()[j] == s[j]);
        let k = choose|k: int| 0 <= k < t.len() && t[k] == s[j];
        if targeted(s.last()) {
            assert(t.push(s.last())[k] == s[j]);
        }
    }
}

/// The offers a fan-out of `v` makes: `v` to each receiver of `s` that
/// `targeted` selects, in order.
pub open spec fn offers_of<T, V>(s: Seq<T>, targeted: spec_fn(T) -> bool, v: V) -> Seq<(T, V)> {
    targeted_in(s, targeted).map_values(|t: T| (t, v))
}

} // verus!
