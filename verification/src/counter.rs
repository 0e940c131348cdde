//! The byte counter: an unsigned running total of live allocated bytes,
//! wrapping at the machine-word limit as the underlying register does.

use vstd::prelude::*;

verus! {

/// One more than the largest total the counter can hold; the counter wraps
/// at this limit, exactly as the machine word underneath it does.
pub open spec fn counter_limit() -> int {
    usize::MAX + 1
}

/// The total after `n` bytes are added to a counter standing at `t`:
/// a wrapping add on the machine word.
pub open spec fn counter_add(t: nat, n: nat) -> nat
    recommends
        t <= usize::MAX,
        n <= usize::MAX,
{
    if t + n <= usize::MAX {
        t + n
    } else {
        (t + n - counter_limit()) as nat
    }
}

/// The total after `n` bytes are taken from a counter standing at `t`:
/// a wrapping subtract, with no underflow guard.
pub open spec fn counter_sub(t: nat, n: nat) -> nat
    recommends
        t <= usize::MAX,
        n <= usize::MAX,
{
    if n <= t {
        (t - n) as nat
    } else {
        (t - n + counter_limit()) as nat
    }
}

/// A running total of currently live allocated bytes. It is only ever moved
/// by whole-word add and subtract, and wraps silently at the word limit:
/// nothing checks that a subtraction was covered by an earlier addition.
pub struct ByteCounter {
    total: usize,
}

impl View for ByteCounter {
    type V = nat;

    closed spec fn view(&self) -> nat {
        self.total as nat
    }
}

impl ByteCounter {
    /// A counter standing at zero.
    pub fn new() -> (c: ByteCounter)
        ensures
            c@ == 0,
    {
        ByteCounter { total: 0 }
    }

    /// Raises the total by `n` bytes, wrapping at the word limit.
    pub fn add(&mut self, n: usize)
        ensures
            final(self)@ == counter_add(old(self)@, n as nat),
    {
        self.total = self.total.wrapping_add(n);
    }

    /// Lowers the total by `n` bytes, wrapping at the word limit; there is
    /// no underflow guard.
    pub fn subtract(&mut self, n: usize)
        ensures
            final(self)@ == counter_sub(old(self)@, n as nat),
    {
        self.total = self.total.wrapping_sub(n);
    }

    /// The current total.
    pub fn read(&self) -> (r: usize)
        ensures
            r == self@,
    {
        self.total
    }
}

/// What one addition raises, the matching subtraction takes back: the pair
/// leaves the counter where it started, also across a wrap.
pub proof fn lemma_add_sub_cancel(t: nat, n: nat)
    requires
        t <= usize::MAX,
        n <= usize::MAX,
    ensures
        counter_sub(counter_add(t, n), n) == t,
{
}

} // verus!
