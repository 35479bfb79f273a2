//! One-shot countdown latch: the owner may proceed once the count has been
//! driven down to zero. The count only ever decreases, so once open the
//! latch stays open for every later waiter.
//!
//! The blocking loop around the latch (a mutex and a condition variable)
//! belongs to the caller; this type carries the count and the decision.

use vstd::prelude::*;

verus! {

pub struct CountDownLatch {
    count: usize,
}

impl CountDownLatch {
    /// How many `count_down` calls are still owed before the latch opens.
    pub closed spec fn count(&self) -> nat {
        self.count as nat
    }

    /// The latch is open exactly when the count has reached zero.
    pub open spec fn is_open(&self) -> bool {
        self.count() == 0
    }

    pub fn new(count: usize) -> (r: Self)
        ensures
            r.count() == count,
    {
        CountDownLatch { count }
    }

    /// Polls the latch: reports whether a waiter may proceed. A caller that
    /// must block re-polls after each wake on its own condition variable.
    pub fn wait(&self) -> (open: bool)
        ensures
            open == self.is_open(),
    {
        self.count == 0
    }

    /// Takes one step towards opening and reports whether this was the step
    /// that opened the latch, so the caller knows when to notify all waiters.
    pub fn count_down(&mut self) -> (opened: bool)
        requires
            old(self).count() > 0,
        ensures
            final(self).count() == old(self).count() - 1,
            opened == final(self).is_open(),
    {
        self.count = self.count - 1;
        self.count == 0
    }
}

} // verus!
