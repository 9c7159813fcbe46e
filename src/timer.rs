use vstd::prelude::*;

verus! {

/// How many times a repeating timer with the given interval fires when
/// `dt` passes after `elapsed` had already accumulated.
pub open spec fn fires_spec(elapsed: int, interval: int, dt: int) -> int {
    (elapsed + dt) / interval
}

/// What a repeating timer keeps once `dt` has passed: the time since its
/// last firing.
pub open spec fn leftover_spec(elapsed: int, interval: int, dt: int) -> int {
    (elapsed + dt) % interval
}

/// A repeating timer, in microseconds: it fires each time the accumulated
/// time crosses a multiple of its interval, and keeps the excess.
#[derive(Clone, Copy, Debug, PartialEq, Eq, Structural)]
pub struct Timer {
    pub interval: u32,
    pub elapsed: u32,
}

impl Timer {
    pub open spec fn wf(self) -> bool {
        0 < self.interval && self.elapsed < self.interval
    }

    /// A timer that has accumulated nothing yet.
    pub fn new(interval: u32) -> (r: Timer)
        requires
            interval > 0,
        ensures
            r.wf(),
            r.interval == interval,
            r.elapsed == 0,
    {
        Timer { interval, elapsed: 0 }
    }

    /// Forgets the accumulated time.
    pub fn reset(&mut self)
        requires
            old(self).wf(),
        ensures
            final(self).wf(),
            final(self).interval == old(self).interval,
            final(self).elapsed == 0,
    {
        self.elapsed = 0;
    }

    /// Lets `dt` microseconds pass and returns how many times the timer fired.
    pub fn tick(&mut self, dt: u32) -> (fired: u64)
        requires
            old(self).wf(),
        ensures
            final(self).wf(),
            final(self).interval == old(self).interval,
            fired == fires_spec(old(self).elapsed as int, old(self).interval as int, dt as int),
            final(self).elapsed == leftover_spec(
                old(self).elapsed as int,
                old(self).interval as int,
                dt as int,
            ),
    {
        let total: u64 = self.elapsed as u64 + dt as u64;
        let fired: u64 = total / (self.interval as u64);
        let rest: u64 = total % (self.interval as u64);
        self.elapsed = rest as u32;
        fired
    }
}

/// A timer that starts from nothing and is given `k` whole intervals and a
/// remainder `r` shorter than an interval fires exactly `k` times, and keeps `r`.
pub proof fn lemma_timer_fire_count(interval: int, k: int, r: int)
    requires
        0 < interval,
        0 <= k,
        0 <= r < interval,
    ensures
        fires_spec(0, interval, k * interval + r) == k,
        leftover_spec(0, interval, k * interval + r) == r,
{
    vstd::arithmetic::div_mod::lemma_fundamental_div_mod_converse(
        k * interval + r,
        interval,
        k,
        r,
    );
}

} // verus!
