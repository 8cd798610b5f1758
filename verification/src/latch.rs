//! A one-shot boolean latch: the in-memory model of the termination signal.
//!
//! The latch starts clear, can only ever be raised, and never goes back:
//! once set it stays set.  `lemma_latch_monotonic` states that one-way
//! behaviour over any sequence of latch states.

use vstd::prelude::*;

verus! {

/// A one-shot latch: starts clear, can be set, never cleared again.
pub struct Latch {
    engaged: bool,
}

impl Latch {
    /// Whether the latch has been set.
    pub closed spec fn is_set(self) -> bool {
        self.engaged
    }

    /// A fresh latch is clear.
    pub fn new() -> (r: Latch)
        ensures
            !r.is_set(),
    {
        Latch { engaged: false }
    }

    /// Reads the current state without changing it.
    pub fn read(&self) -> (r: bool)
        ensures
            r == self.is_set(),
    {
        self.engaged
    }

    /// Attempts the clear-to-set transition; returns true exactly when this
    /// call performed it.  The latch is set afterwards in every case.
    pub fn try_set(&mut self) -> (r: bool)
        ensures
            final(self).is_set(),
            r == !old(self).is_set(),
    {
        let was = self.engaged;
        self.engaged = true;
        !was
    }
}

/// One step of a latch's life: a step may raise the latch or leave it
/// alone, but never clears it.
pub open spec fn latch_step(before: bool, after: bool) -> bool {
    before ==> after
}

/// Once the latch is observed set, every later observation is set too,
/// along any sequence of states whose consecutive pairs are latch steps.
pub proof fn lemma_latch_monotonic(trace: Seq<bool>, i: int, j: int)
    requires
        0 <= i <= j < trace.len(),
        forall|k: int| i <= k < j ==> latch_step(#[trigger] trace[k], trace[k + 1]),
        trace[i],
    ensures
        trace[j],
    decreases j - i,
{
    if i < j {
        assert(latch_step(trace[i], trace[i + 1]));
        lemma_latch_monotonic(trace, i + 1, j);
    }
}

} // verus!
