//! Running byte counters.

use vstd::prelude::*;

verus! {

/// A signed count of bytes that grows and shrinks by unsigned amounts.
///
/// It is wide enough that adding the sizes of as many items as a `Vec` can
/// hold, each no larger than `isize::MAX`, never overflows.
#[derive(Clone, Copy, Debug, PartialEq, Eq, Structural, Default)]
pub struct SizeTracker {
    bytes: i128,
}

impl View for SizeTracker {
    type V = int;

    /// The number of bytes counted.
    closed spec fn view(&self) -> int {
        self.bytes as int
    }
}

impl SizeTracker {
    /// A counter at zero.
    pub fn new() -> (tracker: SizeTracker)
        ensures
            tracker@ == 0,
    {
        SizeTracker { bytes: 0 }
    }

    /// Counts `amount` more bytes.
    pub fn add(&mut self, amount: usize)
        requires
            old(self)@ + amount <= i128::MAX,
        ensures
            final(self)@ == old(self)@ + amount,
    {
        self.bytes = self.bytes + (amount as i128);
    }

    /// Counts `amount` fewer bytes.
    pub fn sub(&mut self, amount: usize)
        requires
            old(self)@ - amount >= i128::MIN,
        ensures
            final(self)@ == old(self)@ - amount,
    {
        self.bytes = self.bytes - (amount as i128);
    }

    /// Whether more than `bound` bytes are counted.
    pub fn exceeds(&self, bound: usize) -> (r: bool)
        ensures
            r == (self@ > bound),
    {
        self.bytes > (bound as i128)
    }

    /// The number of bytes counted.
    pub fn get(&self) -> (bytes: i128)
        ensures
            bytes == self@,
    {
        self.bytes
    }
}

} // verus!
