//! Fixed-interval tick clock fed by per-frame wall-clock deltas.

use vstd::prelude::*;

verus! {

/// Accumulates elapsed milliseconds and fires once whenever the fixed
/// interval is crossed. Several crossings within one frame coalesce into a
/// single fired tick; the accumulator keeps only the remainder.
pub struct TickTimer {
    pub interval_ms: u32,
    pub elapsed_ms: u32,
    pub fired: bool,
}

impl TickTimer {
    pub open spec fn wf(self) -> bool {
        &&& self.interval_ms >= 1
        &&& self.elapsed_ms < self.interval_ms
    }

    pub fn new(interval_ms: u32) -> (t: TickTimer)
        requires
            interval_ms >= 1,
        ensures
            t.wf(),
            t.interval_ms == interval_ms,
            t.elapsed_ms == 0,
            !t.fired,
    {
        TickTimer { interval_ms, elapsed_ms: 0, fired: false }
    }

    /// Advance by one frame's delta, already scaled by any speed
    /// multiplier. The tick fires exactly when the accumulated time
    /// reaches the interval; the accumulator wraps modulo the interval.
    pub fn tick(&mut self, delta_ms: u32)
        requires
            old(self).wf(),
        ensures
            final(self).wf(),
            final(self).interval_ms == old(self).interval_ms,
            final(self).fired == (old(self).elapsed_ms + delta_ms >= old(self).interval_ms),
            final(self).elapsed_ms == (old(self).elapsed_ms + delta_ms) % (
            old(self).interval_ms as int),
    {
        let total: u64 = self.elapsed_ms as u64 + delta_ms as u64;
        self.fired = total >= self.interval_ms as u64;
        self.elapsed_ms = (total % (self.interval_ms as u64)) as u32;
    }

    /// Whether the tick fired on the most recent frame.
    pub fn just_finished(&self) -> (r: bool)
        ensures
            r == self.fired,
    {
        self.fired
    }
}

} // verus!
