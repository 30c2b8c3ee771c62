//! A small strictly-increasing sequence generator, embedded inside a parent
//! record and persisted with it. It numbers the items of a record's nested
//! note lists.
//!
//! Invariant: the value never decreases; `inc`, `inc_and_get`, `get_and_inc`
//! and `add` are the only mutators, and each grows the value by exactly the
//! amount it states.
use vstd::prelude::*;

verus! {

/// A monotonic counter over an unsigned machine integer.
///
/// Monotonicity is only guaranteed within one unbroken chain of successful
/// writes of the owning record: a caller that retries a failed write with a
/// stale snapshot can reintroduce a lower value. That is a caller-discipline
/// limitation, not something this type can detect.
#[derive(Clone, Copy, PartialEq, Eq, Structural, Debug)]
pub struct Counter {
    n: u32,
}

impl View for Counter {
    type V = u32;

    closed spec fn view(&self) -> u32 {
        self.n
    }
}

impl Counter {
    /// A counter starting at zero.
    pub fn new() -> (r: Self)
        ensures
            r@ == 0,
    {
        Counter { n: 0 }
    }

    /// A counter starting at `n`.
    pub fn from(n: u32) -> (r: Self)
        ensures
            r@ == n,
    {
        Counter { n }
    }

    /// The current value, without incrementing.
    pub fn get(&self) -> (r: u32)
        ensures
            r == self@,
    {
        self.n
    }

    /// Increment, then return the new value.
    pub fn inc(&mut self) -> (r: u32)
        requires
            old(self)@ < u32::MAX,
        ensures
            final(self)@ == old(self)@ + 1,
            r == final(self)@,
            r > old(self)@,
    {
        self.n = self.n + 1;
        self.n
    }

    /// Increment, then return the new value.
    pub fn inc_and_get(&mut self) -> (r: u32)
        requires
            old(self)@ < u32::MAX,
        ensures
            final(self)@ == old(self)@ + 1,
            r == final(self)@,
            r > old(self)@,
    {
        self.inc()
    }

    /// Return the value before the increment, then increment.
    pub fn get_and_inc(&mut self) -> (r: u32)
        requires
            old(self)@ < u32::MAX,
        ensures
            final(self)@ == old(self)@ + 1,
            r == old(self)@,
    {
        let n = self.n;
        self.n = self.n + 1;
        n
    }

    /// Add `n`, then return the new value.
    pub fn add(&mut self, n: u32) -> (r: u32)
        requires
            old(self)@ + n <= u32::MAX,
        ensures
            final(self)@ == old(self)@ + n,
            r == final(self)@,
    {
        self.n = self.n + n;
        self.n
    }
}

/// The value a counter holds after `k` increments from `start`.
pub open spec fn counter_after(start: u32, k: nat) -> int {
    start + k
}

/// Counter monotonicity: over any sequence of `inc` calls, the value returned
/// by a later call is strictly greater than the value returned by an earlier
/// one. Each `inc` returns `counter_after(start, k)` for its position `k`
/// (its `ensures` ties the returned value to the value held), so the returned
/// values are strictly increasing.
pub proof fn lemma_counter_monotonic(start: u32, i: nat, j: nat)
    requires
        i < j,
    ensures
        counter_after(start, i) < counter_after(start, j),
{
}

} // verus!
