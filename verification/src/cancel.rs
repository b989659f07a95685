//! The cancellation signal: a latched boolean. It starts unset, the one
//! mutating operation sets it, and nothing ever clears it, so once set it is
//! never observed unset again. The collector is the only component that sets
//! it; every long-running component observes it. The broadcast that carries
//! the signal across tasks lives outside this crate's library; this module
//! holds the latch itself and its monotonicity.

use vstd::prelude::*;

verus! {

/// One operation on the latch: setting it, or observing it (which leaves it
/// unchanged).
#[derive(Clone, Copy, Debug, PartialEq, Eq, Structural)]
pub enum LatchOp {
    Raise,
    Observe,
}

/// The latch's value after a run of operations.
pub open spec fn latch_run(init: bool, ops: Seq<LatchOp>) -> bool
    decreases ops.len(),
{
    if ops.len() == 0 {
        init
    } else {
        match ops.last() {
            LatchOp::Raise => true,
            LatchOp::Observe => latch_run(init, ops.drop_last()),
        }
    }
}

/// Once the latch is set it stays set: whatever operations follow, it is
/// never observed unset again.
pub proof fn lemma_latch_monotone(init: bool, ops: Seq<LatchOp>)
    requires
        init,
    ensures
        latch_run(init, ops),
    decreases ops.len(),
{
    if ops.len() > 0 {
        lemma_latch_monotone(init, ops.drop_last());
    }
}

/// The cancellation latch.
pub struct CancelFlag {
    pub cancelled: bool,
}

impl CancelFlag {
    /// A fresh latch is unset.
    pub fn new() -> (r: CancelFlag)
        ensures
            !r.cancelled,
    {
        CancelFlag { cancelled: false }
    }

    /// Set the latch. This is the only operation that changes it, and it
    /// leaves the latch set whatever it held before.
    pub fn set(&mut self)
        ensures
            final(self).cancelled,
    {
        self.cancelled = true;
    }

    /// Observe the latch without changing it.
    pub fn is_cancelled(&self) -> (r: bool)
        ensures
            r == self.cancelled,
    {
        self.cancelled
    }
}

} // verus!
