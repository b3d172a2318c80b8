use vstd::prelude::*;

verus! {

/// Length of one fall interval, in nanoseconds (0.4 s).
pub const BLOCK_FALL_INTERVAL: u64 = 400_000_000;

/// A repeating timer: it accumulates elapsed time and becomes ready each
/// time a whole interval has passed, until the readiness is consumed.
pub struct BlockFallTimer {
    interval: u64,
    elapsed: u64,
    ready: bool,
}

impl BlockFallTimer {
    pub open spec fn wf(&self) -> bool {
        0 < self.interval_len() && self.elapsed_time() < self.interval_len()
    }

    /// Length of one interval.
    pub closed spec fn interval_len(&self) -> nat {
        self.interval as nat
    }

    /// Time accumulated since the last completed interval.
    pub closed spec fn elapsed_time(&self) -> nat {
        self.elapsed as nat
    }

    /// Has an interval completed since readiness was last consumed?
    pub closed spec fn is_ready(&self) -> bool {
        self.ready
    }

    /// A timer with the given interval, with nothing accumulated.
    pub fn new(interval: u64) -> (r: BlockFallTimer)
        requires
            interval > 0,
        ensures
            r.wf(),
            r.interval_len() == interval,
            r.elapsed_time() == 0,
            !r.is_ready(),
    {
        BlockFallTimer { interval, elapsed: 0, ready: false }
    }

    /// Adds `delta` to the accumulated time. Every whole interval passed is
    /// taken off, and the timer is ready if at least one passed.
    pub fn tick(&mut self, delta: u64)
        requires
            old(self).wf(),
        ensures
            final(self).wf(),
            final(self).interval_len() == old(self).interval_len(),
            final(self).elapsed_time() == (old(self).elapsed_time() + delta) % (
            old(self).interval_len() as int),
            final(self).is_ready() == (old(self).is_ready() || old(self).elapsed_time() + delta
                >= old(self).interval_len()),
    {
        let room = self.interval - self.elapsed;
        if delta >= room {
            let over = delta - room;
            proof {
                let i = self.interval as int;
                let total = self.elapsed + delta;
                assert(total == over + i);
                vstd::arithmetic::div_mod::lemma_mod_add_multiples_vanish(over as int, i);
            }
            self.elapsed = over % self.interval;
            self.ready = true;
        } else {
            proof {
                vstd::arithmetic::div_mod::lemma_small_mod(
                    (self.elapsed + delta) as nat,
                    self.interval as nat,
                );
            }
            self.elapsed = self.elapsed + delta;
        }
    }

    /// Returns whether an interval has completed since the last call that
    /// returned true, and clears that readiness.
    pub fn consume_if_ready(&mut self) -> (r: bool)
        requires
            old(self).wf(),
        ensures
            final(self).wf(),
            r == old(self).is_ready(),
            !final(self).is_ready(),
            final(self).interval_len() == old(self).interval_len(),
            final(self).elapsed_time() == old(self).elapsed_time(),
    {
        let r = self.ready;
        self.ready = false;
        r
    }
}

impl Default for BlockFallTimer {
    fn default() -> (r: BlockFallTimer)
        ensures
            r.wf(),
            r.interval_len() == BLOCK_FALL_INTERVAL,
            r.elapsed_time() == 0,
            !r.is_ready(),
    {
        BlockFallTimer::new(BLOCK_FALL_INTERVAL)
    }
}

/// Advances the fall timer by the time that passed since the last frame.
pub fn tick_block_fall_timer(timer: &mut BlockFallTimer, delta: u64)
    requires
        old(timer).wf(),
    ensures
        final(timer).wf(),
        final(timer).interval_len() == old(timer).interval_len(),
        final(timer).elapsed_time() == (old(timer).elapsed_time() + delta) % (
        old(timer).interval_len() as int),
        final(timer).is_ready() == (old(timer).is_ready() || old(timer).elapsed_time() + delta
            >= old(timer).interval_len()),
{
    timer.tick(delta);
}

} // verus!
