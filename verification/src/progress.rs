//! Counting the frames of the second pass for an observer.

use vstd::prelude::*;

verus! {

/// The number of frames processed so far, against the number expected.
///
/// The count only ever grows, by one per frame. The expected total is fixed
/// when the counter is made and is a hint: a stream may hold more frames or
/// fewer.
#[derive(Clone, Copy, Debug, PartialEq, Eq)]
pub struct Progress {
    total: usize,
    count: usize,
}

impl Progress {
    pub closed spec fn spec_total(&self) -> usize {
        self.total
    }

    pub closed spec fn spec_count(&self) -> usize {
        self.count
    }

    /// The count that follows `count`: one more, and no more once the
    /// machine word is full.
    pub open spec fn successor(count: usize) -> usize {
        if count < usize::MAX {
            (count + 1) as usize
        } else {
            count
        }
    }

    pub fn new(total: usize) -> (progress: Progress)
        ensures
            progress.spec_total() == total,
            progress.spec_count() == 0,
    {
        Progress { total, count: 0 }
    }

    /// Records one more frame and returns the new count.
    pub fn next(&mut self) -> (count: usize)
        ensures
            final(self).spec_total() == old(self).spec_total(),
            final(self).spec_count() == Self::successor(old(self).spec_count()),
            count == final(self).spec_count(),
    {
        if self.count < usize::MAX {
            self.count = self.count + 1;
        }
        self.count
    }

    /// The share of the expected frames that has been processed, in whole
    /// percent. A count past the total shows as complete, and so does any
    /// count where no frame is expected.
    pub open spec fn spec_percent(&self) -> nat {
        if self.spec_total() == 0 || self.spec_count() >= self.spec_total() {
            100
        } else {
            (self.spec_count() * 100 / (self.spec_total() as int)) as nat
        }
    }

    pub fn percent(&self) -> (percent: u8)
        ensures
            percent == self.spec_percent(),
            percent <= 100,
    {
        if self.total == 0 || self.count >= self.total {
            100
        } else {
            let count = self.count as u128;
            let total = self.total as u128;
            assert(count * 100 / (total as int) < 100) by (nonlinear_arith)
                requires
                    0 <= count < total,
            ;
            (count * 100 / total) as u8
        }
    }

    #[verifier::when_used_as_spec(spec_count)]
    pub fn count(&self) -> (count: usize)
        ensures
            count == self.spec_count(),
    {
        self.count
    }

    #[verifier::when_used_as_spec(spec_total)]
    pub fn total(&self) -> (total: usize)
        ensures
            total == self.spec_total(),
    {
        self.total
    }
}

} // verus!
