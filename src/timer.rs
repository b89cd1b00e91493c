use vstd::prelude::*;

verus! {

/// Whether a repeating timer with `elapsed` of `period` microseconds on it
/// completes a period when `delta` more pass. A zero period completes on
/// every tick.
pub open spec fn fires(elapsed: int, period: int, delta: int) -> bool {
    period == 0 || elapsed + delta >= period
}

/// Time on a repeating timer after `delta` more microseconds.
pub open spec fn elapsed_after(elapsed: int, period: int, delta: int) -> int {
    if period == 0 {
        0
    } else {
        (elapsed + delta) % period
    }
}

/// A repeating timer, advanced by tick durations in microseconds.
#[derive(Clone, Copy, Debug, PartialEq, Eq, Structural)]
pub struct RepeatingTimer {
    period: u64,
    elapsed: u64,
}

impl RepeatingTimer {
    pub closed spec fn period_spec(&self) -> int {
        self.period as int
    }

    pub closed spec fn elapsed_spec(&self) -> int {
        self.elapsed as int
    }

    /// The timer after `delta` more microseconds.
    pub closed spec fn ticked(&self, delta: int) -> RepeatingTimer {
        RepeatingTimer {
            period: self.period,
            elapsed: elapsed_after(self.elapsed as int, self.period as int, delta) as u64,
        }
    }

    pub proof fn lemma_ticked(&self, delta: int)
        requires
            self.wf(),
            0 <= delta,
        ensures
            self.ticked(delta).wf(),
            self.ticked(delta).period_spec() == self.period_spec(),
            self.ticked(delta).elapsed_spec() == elapsed_after(self.elapsed_spec(), self.period_spec(), delta),
    {
        if self.period > 0 {
            assert(0 <= (self.elapsed + delta) % (self.period as int) < self.period);
        }
    }

    pub open spec fn wf(&self) -> bool {
        if self.period_spec() == 0 {
            self.elapsed_spec() == 0
        } else {
            0 <= self.elapsed_spec() < self.period_spec()
        }
    }

    /// A timer that completes every `period` microseconds, starting at zero.
    pub fn new(period: u64) -> (r: Self)
        ensures
            r.wf(),
            r.period_spec() == period,
            r.elapsed_spec() == 0,
    {
        RepeatingTimer { period, elapsed: 0 }
    }

    pub fn period(&self) -> (r: u64)
        ensures
            r == self.period_spec(),
    {
        self.period
    }

    pub fn elapsed(&self) -> (r: u64)
        ensures
            r == self.elapsed_spec(),
    {
        self.elapsed
    }

    /// Advances the timer by `delta` microseconds; says whether a period
    /// completed during this tick.
    pub fn tick(&mut self, delta: u64) -> (just_finished: bool)
        requires
            old(self).wf(),
        ensures
            *final(self) == old(self).ticked(delta as int),
            final(self).wf(),
            final(self).period_spec() == old(self).period_spec(),
            final(self).elapsed_spec() == elapsed_after(
                old(self).elapsed_spec(),
                old(self).period_spec(),
                delta as int,
            ),
            just_finished == fires(old(self).elapsed_spec(), old(self).period_spec(), delta as int),
    {
        if self.period == 0 {
            return true;
        }
        let total: u128 = self.elapsed as u128 + delta as u128;
        let finished = total >= self.period as u128;
        self.elapsed = (total % self.period as u128) as u64;
        finished
    }
}

} // verus!
