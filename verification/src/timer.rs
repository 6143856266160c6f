//! A countdown timer, the small state machine reused everywhere in the
//! simulation: weapon cooldowns, respawn delay, idle-drop timeout, and the
//! fixed-tick broadcast cadence.
//!
//! A timer holds a configured duration and the time remaining, both in
//! nanoseconds. Each tick the owner calls [`Timer::update`] with the elapsed
//! time; once the remaining time would go negative it is clamped to zero and
//! the sticky `ready` flag is set until [`Timer::reset`] (or
//! [`Timer::set_millis_transient`]) is called.

use vstd::prelude::*;

verus! {

pub const NANOS_PER_MILLI: u128 = 1_000_000;

#[derive(Copy, Clone, Debug, PartialEq, Eq, Structural)]
pub struct Timer {
    /// The configured duration in nanoseconds; `reset` restores this.
    pub time: u128,
    /// Time remaining in nanoseconds.
    pub time_left: u128,
    /// True once the timer has counted down to zero; sticky until a reset.
    pub ready: bool,
}

impl Timer {
    /// What `update(delta)` leaves behind: no-op once ready; otherwise the
    /// remaining time shrinks by `delta`, clamping to zero and setting the
    /// sticky `ready` flag when it would go negative.
    pub open spec fn advanced(self, delta: u128) -> Timer {
        if self.ready {
            self
        } else if delta <= self.time_left {
            Timer { time_left: (self.time_left - delta) as u128, ..self }
        } else {
            Timer { time_left: 0, ready: true, ..self }
        }
    }

    /// Create a timer with a full `ms` milliseconds remaining.
    pub fn from_millis(ms: u64) -> (t: Timer)
        ensures
            t.time == ms as u128 * NANOS_PER_MILLI,
            t.time_left == t.time,
            !t.ready,
    {
        let duration: u128 = ms as u128 * NANOS_PER_MILLI;
        Timer { time: duration, time_left: duration, ready: false }
    }

    /// Create a timer with a full `nanos` nanoseconds remaining.
    pub fn from_nanos(nanos: u64) -> (t: Timer)
        ensures
            t.time == nanos as u128,
            t.time_left == t.time,
            !t.ready,
    {
        Timer { time: nanos as u128, time_left: nanos as u128, ready: false }
    }

    /// Restore the full configured duration and clear `ready`.
    pub fn reset(&mut self)
        ensures
            *final(self) == (Timer { time_left: old(self).time, ready: false, ..*old(self) }),
    {
        self.ready = false;
        self.time_left = self.time;
    }

    /// Like `reset`, but the remaining time is set to an arbitrary value while
    /// the configured duration for future `reset` calls is unchanged. Used to
    /// give a freshly joined player a faster first spawn.
    pub fn set_millis_transient(&mut self, ms: u64)
        ensures
            *final(self) == (Timer {
                time_left: (ms as u128 * NANOS_PER_MILLI) as u128,
                ready: false,
                ..*old(self)
            }),
    {
        self.ready = false;
        self.time_left = ms as u128 * NANOS_PER_MILLI;
    }

    /// Count down by `delta` nanoseconds; see [`Timer::advanced`].
    pub fn update(&mut self, delta: u64)
        ensures
            *final(self) == old(self).advanced(delta as u128),
    {
        if self.ready {
            return;
        }
        if delta as u128 <= self.time_left {
            self.time_left = self.time_left - delta as u128;
        } else {
            self.time_left = 0;
            self.ready = true;
        }
    }
}

} // verus!
