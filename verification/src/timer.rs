//! Repeating countdowns that pace the spawning of enemies and stars.

use vstd::prelude::*;

verus! {

/// A repeating countdown, in microseconds. A tick that uses up the remaining
/// time finishes the timer, which starts again from its full period.
#[derive(Clone, Copy, Debug, PartialEq, Eq, Structural)]
pub struct SpawnTimer {
    /// The time from one start of the countdown to its end.
    pub period: u64,
    /// The time left until the countdown ends.
    pub remaining: u64,
    /// Whether the last tick ended the countdown.
    pub finished: bool,
}

impl SpawnTimer {
    /// This timer after `dt` more microseconds.
    pub open spec fn ticked(self, dt: u64) -> SpawnTimer {
        if dt >= self.remaining {
            SpawnTimer { period: self.period, remaining: self.period, finished: true }
        } else {
            SpawnTimer {
                period: self.period,
                remaining: (self.remaining - dt) as u64,
                finished: false,
            }
        }
    }

    /// The time that this timer has counted since it last started.
    pub open spec fn elapsed(self) -> int {
        self.period - self.remaining
    }

    /// A timer at the start of its countdown.
    pub fn repeating(period: u64) -> (r: SpawnTimer)
        ensures
            r == (SpawnTimer { period, remaining: period, finished: false }),
    {
        SpawnTimer { period, remaining: period, finished: false }
    }

    /// Advances the countdown by `dt` microseconds.
    pub fn tick(&mut self, dt: u64)
        ensures
            *final(self) == old(self).ticked(dt),
    {
        if dt >= self.remaining {
            self.remaining = self.period;
            self.finished = true;
        } else {
            self.remaining = self.remaining - dt;
            self.finished = false;
        }
    }

    /// Whether the last tick ended the countdown.
    pub fn finished(&self) -> (r: bool)
        ensures
            r == self.finished,
    {
        self.finished
    }

    /// A tick adds at most its own length to the time that the periods
    /// completed so far and the running countdown account for: with `k`
    /// the number of times the timer has finished, `k * period + elapsed`
    /// never runs ahead of the clock.
    pub proof fn lemma_tick_accounts(self, dt: u64)
        ensures
            self.ticked(dt).finished ==> self.period + self.ticked(dt).elapsed() <= self.elapsed()
                + dt,
            !self.ticked(dt).finished ==> self.ticked(dt).elapsed() == self.elapsed() + dt,
    {
    }
}

} // verus!
