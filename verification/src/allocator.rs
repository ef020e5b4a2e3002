//! Issues unique, monotonically increasing entity identifiers.

#![allow(unused_imports)]
use crate::{Error, KittyIndex};
use vstd::prelude::*;

verus! {

/// The allocation counter.  The next entity gets the current counter value
/// as its id; allocation fails rather than wraps when the id space is
/// exhausted.
pub struct IdAllocator {
    count: KittyIndex,
}

impl IdAllocator {
    /// The current counter value.
    pub closed spec fn counter(self) -> KittyIndex {
        self.count
    }

    /// A fresh allocator: ids start at zero.
    pub fn new() -> (r: IdAllocator)
        ensures
            r.counter() == 0,
    {
        IdAllocator { count: 0 }
    }

    /// An allocator resumed from a persisted counter value.
    pub fn from_count(count: KittyIndex) -> (r: IdAllocator)
        ensures
            r.counter() == count,
    {
        IdAllocator { count }
    }

    /// The id the next creation will get: the current counter, unless the
    /// id space is exhausted.  Reading never moves the counter; a creating
    /// operation advances it only once the whole operation succeeds.
    pub fn next_id(&self) -> (r: Result<KittyIndex, Error>)
        ensures
            r == if self.counter() == KittyIndex::MAX {
                Err::<KittyIndex, Error>(Error::KittiesCountOverflow)
            } else {
                Ok::<KittyIndex, Error>(self.counter())
            },
    {
        if self.count == KittyIndex::MAX {
            Err(Error::KittiesCountOverflow)
        } else {
            Ok(self.count)
        }
    }

    /// Consume the current id: the counter moves up by one.
    pub fn advance(&mut self)
        requires
            old(self).counter() < KittyIndex::MAX,
        ensures
            final(self).counter() == old(self).counter() + 1,
    {
        self.count = self.count + 1;
    }
}

} // verus!
