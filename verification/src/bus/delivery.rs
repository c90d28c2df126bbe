//! Delivery classes and the per-publisher sequence counter of the
//! authoritative class.

use vstd::prelude::*;

verus! {

/// The two delivery classes of the bus.
#[derive(Clone, Copy, Debug, PartialEq, Eq, Structural)]
pub enum DeliveryClass {
    /// Events: drop-oldest under back-pressure, no sequence, no replay.
    Lossy,
    /// Fact assert/retract, lifecycle, error: per-publisher monotonic
    /// sequence numbers.
    Authoritative,
}

/// Monotonic per-publisher sequence counter: successive values from 0,
/// wrapping after `u64::MAX`.
#[derive(Debug)]
pub struct SequenceCounter {
    next: u64,
}

impl SequenceCounter {
    /// The value the next allocation returns.
    pub closed spec fn spec_next(&self) -> u64 {
        self.next
    }

    pub fn new() -> (c: Self)
        ensures
            c.spec_next() == 0,
    {
        SequenceCounter { next: 0 }
    }

    /// Allocate the next sequence number.
    pub fn next(&mut self) -> (r: u64)
        ensures
            r == old(self).spec_next(),
            final(self).spec_next() == old(self).spec_next().wrapping_add(1),
    {
        let r = self.next;
        self.next = self.next.wrapping_add(1);
        r
    }

    /// The value the next allocation would return, without consuming it.
    pub fn peek(&self) -> (r: u64)
        ensures
            r == self.spec_next(),
    {
        self.next
    }
}

} // verus!
