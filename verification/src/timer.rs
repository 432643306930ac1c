//! Elapsed-time accumulators, advanced by the time each frame took.
//!
//! Time is counted in nanoseconds and stops at the largest count a `u64`
//! holds.

use vstd::prelude::*;

verus! {

/// The sum of two spans of time, stopped at the largest count.
pub open spec fn saturating_sum(a: u64, b: u64) -> u64 {
    if a + b > u64::MAX {
        u64::MAX
    } else {
        (a + b) as u64
    }
}

/// Time gathered since the last reset.
#[derive(Clone, Copy, Debug, PartialEq, Eq, Structural)]
pub struct Stopwatch {
    pub elapsed: u64,
}

impl Stopwatch {
    /// A stopwatch that has gathered no time.
    pub fn new() -> (s: Stopwatch)
        ensures
            s.elapsed == 0,
    {
        Stopwatch { elapsed: 0 }
    }

    pub fn elapsed(&self) -> (e: u64)
        ensures
            e == self.elapsed,
    {
        self.elapsed
    }

    /// Adds the time of one frame.
    pub fn tick(&mut self, delta: u64)
        ensures
            final(self).elapsed == saturating_sum(old(self).elapsed, delta),
    {
        self.elapsed = self.elapsed.saturating_add(delta);
    }

    pub fn reset(&mut self)
        ensures
            final(self).elapsed == 0,
    {
        self.elapsed = 0;
    }
}

/// A timer that finishes every `duration` and starts over with what is left.
#[derive(Clone, Copy, Debug, PartialEq, Eq, Structural)]
pub struct Timer {
    pub elapsed: u64,
    pub duration: u64,
    /// Whether the last tick reached the duration.
    pub just_finished: bool,
}

impl Timer {
    /// A timer of the given duration that has gathered no time.
    pub fn new(duration: u64) -> (t: Timer)
        ensures
            t == (Timer { elapsed: 0, duration, just_finished: false }),
    {
        Timer { elapsed: 0, duration, just_finished: false }
    }

    pub fn just_finished(&self) -> (b: bool)
        ensures
            b == self.just_finished,
    {
        self.just_finished
    }

    /// The timer after a frame of `delta`.
    pub open spec fn ticked(self, delta: u64) -> Timer {
        let total = saturating_sum(self.elapsed, delta);
        if total < self.duration {
            Timer { elapsed: total, duration: self.duration, just_finished: false }
        } else if self.duration == 0 {
            Timer { elapsed: 0, duration: self.duration, just_finished: true }
        } else {
            Timer {
                elapsed: (total % self.duration) as u64,
                duration: self.duration,
                just_finished: true,
            }
        }
    }

    /// Adds the time of one frame. Where the duration is reached the timer
    /// finishes and keeps the time beyond the last whole duration.
    pub fn tick(&mut self, delta: u64)
        ensures
            *final(self) == old(self).ticked(delta),
    {
        let total = self.elapsed.saturating_add(delta);
        if total < self.duration {
            self.elapsed = total;
            self.just_finished = false;
        } else if self.duration == 0 {
            self.elapsed = 0;
            self.just_finished = true;
        } else {
            self.elapsed = total % self.duration;
            self.just_finished = true;
        }
    }
}

} // verus!
