//! The id allocator: a counter that hands out each id once.

use vstd::prelude::*;

verus! {

/// Gives out ids in increasing order, starting at 0 in a new tank. An id
/// given out is never given out again.
pub struct IdAllocator {
    counter: u64,
}

impl View for IdAllocator {
    type V = u64;

    /// The id that will be given out next.
    closed spec fn view(&self) -> u64 {
        self.counter
    }
}

impl IdAllocator {
    /// An allocator that has given out nothing yet.
    pub fn new() -> (ids: IdAllocator)
        ensures
            ids@ == 0,
    {
        IdAllocator { counter: 0 }
    }

    /// An allocator that goes on from `counter`, for a tank that is taken up
    /// again where it was left.
    pub fn starting_at(counter: u64) -> (ids: IdAllocator)
        ensures
            ids@ == counter,
    {
        IdAllocator { counter }
    }

    /// The id that will be given out next.
    pub fn current(&self) -> (id: u64)
        ensures
            id == self@,
    {
        self.counter
    }

    /// Gives out the current id and moves on by one.
    pub fn next(&mut self) -> (id: u64)
        requires
            old(self)@ < u64::MAX,
        ensures
            id == old(self)@,
            final(self)@ == old(self)@ + 1,
    {
        let id = self.counter;
        self.counter = id + 1;
        id
    }
}

} // verus!
