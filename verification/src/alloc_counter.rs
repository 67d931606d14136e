//! Accounting for a memory-counting allocator: an observer that wraps proof
//! generation and never touches the engine's state.

use vstd::prelude::*;

verus! {

/// The sum of two byte counts, wrapping around at the machine's word size.
pub open spec fn wrapped_sum(total: usize, size: usize) -> usize {
    if total + size > usize::MAX {
        (total + size - usize::MAX - 1) as usize
    } else {
        (total + size) as usize
    }
}

/// The difference of two byte counts, wrapping around at the machine's word
/// size.
pub open spec fn wrapped_difference(total: usize, size: usize) -> usize {
    if total < size {
        (total - size + usize::MAX + 1) as usize
    } else {
        (total - size) as usize
    }
}

/// A running count of the bytes that are allocated.
#[derive(Debug)]
pub struct CountingAllocator {
    total: usize,
}

impl CountingAllocator {
    /// The count that this value holds.
    pub closed spec fn total(&self) -> usize {
        self.total
    }

    /// A counter at zero.
    pub fn new() -> (r: Self)
        ensures
            r.total() == 0,
    {
        CountingAllocator { total: 0 }
    }

    /// The bytes counted so far.
    pub fn get_total(&self) -> (n: usize)
        ensures
            n == self.total(),
    {
        self.total
    }

    /// Accounts for an allocation of `size` bytes. One that failed counts
    /// for nothing.
    pub fn record_alloc(&mut self, size: usize, succeeded: bool)
        ensures
            final(self).total() == if succeeded {
                wrapped_sum(old(self).total(), size)
            } else {
                old(self).total()
            },
    {
        if succeeded {
            self.total = self.total.wrapping_add(size);
        }
    }

    /// Accounts for the release of `size` bytes.
    pub fn record_dealloc(&mut self, size: usize)
        ensures
            final(self).total() == wrapped_difference(old(self).total(), size),
    {
        self.total = self.total.wrapping_sub(size);
    }
}

/// The bytes that were allocated between two readings of a counter, where
/// the second reading is not below the first.
pub fn memory_used(before: usize, after: usize) -> (r: Option<usize>)
    ensures
        r == if after >= before {
            Some((after - before) as usize)
        } else {
            None
        },
{
    if after >= before {
        Some(after - before)
    } else {
        None
    }
}

} // verus!
