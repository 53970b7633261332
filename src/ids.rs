use vstd::prelude::*;

verus! {

/// Hands out identifiers `1, 2, 3, ...`, each exactly once.
pub struct IdAllocator {
    last: u64,
}

impl IdAllocator {
    /// The identifier handed out most recently (`0` before the first).
    pub closed spec fn last(&self) -> u64 {
        self.last
    }

    pub fn new() -> (r: IdAllocator)
        ensures
            r.last() == 0,
    {
        IdAllocator { last: 0 }
    }

    /// An allocator that continues after `last`, e.g. after a restart.
    pub fn resume(last: u64) -> (r: IdAllocator)
        ensures
            r.last() == last,
    {
        IdAllocator { last }
    }

    pub fn last_issued(&self) -> (r: u64)
        ensures
            r == self.last(),
    {
        self.last
    }

    /// The next identifier, or `None` once `u64::MAX` has been handed out;
    /// then nothing changes.
    pub fn next_id(&mut self) -> (r: Option<u64>)
        ensures
            old(self).last() < u64::MAX ==> r == Some((old(self).last() + 1) as u64)
                && final(self).last() == old(self).last() + 1,
            old(self).last() == u64::MAX ==> r.is_none() && final(self).last() == old(self).last(),
    {
        if self.last == u64::MAX {
            None
        } else {
            self.last = self.last + 1;
            Some(self.last)
        }
    }
}

} // verus!
