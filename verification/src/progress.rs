//! Counting progress through a known number of entries.

use vstd::prelude::*;

verus! {

/// How far a run over `total` entries has come. The count never passes the
/// total, and what was counted is never taken back.
#[derive(Debug, Clone, Copy, PartialEq, Eq, Structural)]
pub struct Progress {
    pub total: u64,
    pub done: u64,
}

impl Progress {
    /// Nothing counts more than there is.
    pub open spec fn wf(self) -> bool {
        self.done <= self.total
    }

    /// A fresh count over `total` entries.
    pub fn new(total: u64) -> (r: Progress)
        ensures
            r.total == total,
            r.done == 0,
            r.wf(),
    {
        Progress { total, done: 0 }
    }

    /// Starts over with a new total.
    pub fn set_total(&mut self, total: u64)
        ensures
            final(self).total == total,
            final(self).done == 0,
            final(self).wf(),
    {
        self.total = total;
        self.done = 0;
    }

    /// Counts `k` more entries, stopping at the total.
    pub fn advance(&mut self, k: u64)
        ensures
            final(self).total == old(self).total,
            final(self).done == if old(self).done + k <= old(self).total {
                (old(self).done + k) as u64
            } else {
                old(self).total
            },
            final(self).wf(),
    {
        if self.done <= self.total && k <= self.total - self.done {
            self.done = self.done + k;
        } else {
            self.done = self.total;
        }
    }

    /// Whether every entry was counted.
    pub fn is_complete(&self) -> (r: bool)
        ensures
            r == (self.done >= self.total),
    {
        self.done >= self.total
    }
}

} // verus!
