//! A counter that hands out the numbers 1 through 5, one per call, and
//! then reports that it is exhausted.

use vstd::prelude::*;

verus! {

/// Counts the calls made so far.
#[derive(Debug)]
pub struct Counter {
    count: u32,
}

impl Counter {
    /// How many times `next` has been called.
    pub closed spec fn count_spec(self) -> u32 {
        self.count
    }

    /// A fresh counter that has produced nothing yet.
    pub fn new() -> (counter: Counter)
        ensures
            counter.count_spec() == 0,
    {
        Counter { count: 0 }
    }

    /// Advance the counter: the first five calls return 1 through 5,
    /// every later call returns nothing.
    pub fn next(&mut self) -> (item: Option<u32>)
        requires
            old(self).count_spec() < u32::MAX,
        ensures
            final(self).count_spec() == old(self).count_spec() + 1,
            item == if final(self).count_spec() < 6 {
                Some(final(self).count_spec())
            } else {
                None::<u32>
            },
    {
        self.count += 1;
        if self.count < 6 {
            Some(self.count)
        } else {
            None
        }
    }
}

} // verus!
