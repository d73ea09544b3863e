//! Logical time. The tick counter is the kernel's only clock.

use vstd::prelude::*;

verus! {

/// The physical cadence the driver is expected to run at, in milliseconds.
pub const TICK_MS: u64 = 20;

/// A logical instant: a monotonically increasing frame counter.
#[derive(Debug, Clone, Copy, PartialEq, Eq, Hash, Structural)]
pub struct Tick {
    pub frame: u64,
}

impl Tick {
    /// The initial instant, frame zero.
    pub fn new() -> (t: Tick)
        ensures
            t.frame == 0,
    {
        Tick { frame: 0 }
    }

    /// The next instant.
    pub fn next(&self) -> (t: Tick)
        requires
            self.frame < u64::MAX,
        ensures
            t.frame == self.frame + 1,
    {
        Tick { frame: self.frame + 1 }
    }
}

} // verus!
