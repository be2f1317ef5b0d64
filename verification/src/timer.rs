//! Countdown timers, advanced once per tick by an injected elapsed-time
//! parameter. A countdown never stalls: it monotonically reaches zero.

use vstd::prelude::*;

verus! {

/// Remaining time of a countdown after advancing it by `elapsed`.
pub open spec fn spec_countdown(remaining: u32, elapsed: u32) -> u32 {
    if elapsed >= remaining {
        0u32
    } else {
        (remaining - elapsed) as u32
    }
}

/// A countdown: the time left until it fires, in time-units.
#[derive(Clone, Copy, Debug, PartialEq, Eq, Structural)]
pub struct Countdown {
    pub remaining: u32,
}

impl Countdown {
    /// A countdown with the full duration left.
    pub fn new(duration: u32) -> (c: Countdown)
        ensures
            c.remaining == duration,
    {
        Countdown { remaining: duration }
    }

    /// Advance by the elapsed time; reports whether the countdown has
    /// reached zero.
    pub fn tick(&mut self, elapsed: u32) -> (finished: bool)
        ensures
            final(self).remaining == spec_countdown(old(self).remaining, elapsed),
            finished == (final(self).remaining == 0),
    {
        if elapsed >= self.remaining {
            self.remaining = 0;
        } else {
            self.remaining = self.remaining - elapsed;
        }
        self.remaining == 0
    }

    /// Wind the countdown back up to a full duration.
    pub fn reset(&mut self, duration: u32)
        ensures
            final(self).remaining == duration,
    {
        self.remaining = duration;
    }
}

} // verus!
