//! Rate limiting: converting elapsed wall-clock time into whole ticks.
//!
//! A clock is configured in Hz and fed the current time in microseconds by
//! the host; it owns no time source of its own, so runs are reproducible.
//! Consuming ticks advances the reference point by exactly the consumed
//! whole periods, preserving the fractional remainder, so the effective
//! rate never drifts.

use vstd::prelude::*;

verus! {

/// A tick source: a period in microseconds and the reference point from
/// which elapsed time is measured.
pub struct Clock {
    duration: u64,
    instant: Option<u64>,
}

impl Clock {
    /// The tick period in microseconds.
    pub closed spec fn period(&self) -> u64 {
        self.duration
    }

    /// The reference point in microseconds, if the clock was started.
    pub closed spec fn instant(&self) -> Option<u64> {
        self.instant
    }

    /// Well-formedness: the period is at least one microsecond.
    pub open spec fn wf(&self) -> bool {
        self.period() >= 1
    }

    /// A clock ticking `hz` times per second, not yet started.
    /// The rate must lie between 1 Hz and 1 MHz so that the period is a
    /// whole, positive number of microseconds.
    pub fn new(hz: u64) -> (c: Clock)
        requires
            1 <= hz <= 1000000,
        ensures
            c.wf(),
            c.period() == 1000000u64 / hz,
            c.instant() is None,
    {
        proof {
            vstd::arithmetic::div_mod::lemma_div_non_zero(1000000, hz as int);
        }
        Clock { duration: 1000000 / hz, instant: None }
    }

    /// Start measuring from `now` microseconds.
    pub fn start_clock(&mut self, now: u64)
        ensures
            final(self).period() == old(self).period(),
            final(self).instant() == Some(now),
    {
        self.instant = Some(now);
    }

    /// The current reference point; the clock must have been started.
    pub fn get_instant(&self) -> (t: u64)
        requires
            self.instant() is Some,
        ensures
            self.instant() == Some(t),
    {
        self.instant.unwrap()
    }

    /// Move the reference point to `now` microseconds.
    pub fn set_instant(&mut self, now: u64)
        ensures
            final(self).period() == old(self).period(),
            final(self).instant() == Some(now),
    {
        self.instant = Some(now);
    }

    /// How many whole tick periods have elapsed between the reference point
    /// and `now`. The reference point advances by exactly that many
    /// periods: the fractional remainder below one period is kept, never
    /// discarded, so the long-run rate stays exact.
    pub fn consume_ticks(&mut self, now: u64) -> (n: u64)
        requires
            old(self).wf(),
            old(self).instant() is Some,
            now >= old(self).instant()->0,
        ensures
            final(self).wf(),
            final(self).period() == old(self).period(),
            n == (now - old(self).instant()->0) as int / old(self).period() as int,
            final(self).instant() == Some(
                (old(self).instant()->0 + n * old(self).period()) as u64,
            ),
            final(self).instant()->0 <= now,
            now - final(self).instant()->0 < old(self).period(),
    {
        let start = self.instant.unwrap();
        let elapsed = now - start;
        let n = elapsed / self.duration;
        proof {
            let e = elapsed as int;
            let d = self.duration as int;
            vstd::arithmetic::div_mod::lemma_fundamental_div_mod(e, d);
            vstd::arithmetic::div_mod::lemma_mod_division_less_than_divisor(e, d);
            assert(d * (e / d) == (e / d) * d) by (nonlinear_arith);
        }
        self.instant = Some(start + n * self.duration);
        n
    }
}

} // verus!
