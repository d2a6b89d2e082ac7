//! Countdown timers paced by wall-clock time.
//!
//! The host passes the current time, in nanoseconds since any fixed origin, to
//! every operation that needs it; a timer never reads a clock of its own.

use vstd::prelude::*;

verus! {

/// Nanoseconds in one second.
pub const NANOS_PER_SECOND: u64 = 1_000_000_000;

/// Decrements per second of a running timer.
pub const TICKS_PER_SECOND: u64 = 60;

/// Whole periods of 1/60 s that lie between `since` and `now`; none when the
/// clock has not moved forward.
pub open spec fn periods_between(since: u64, now: u64) -> nat {
    if now <= since {
        0
    } else {
        (((now - since) * TICKS_PER_SECOND) / NANOS_PER_SECOND as int) as nat
    }
}

/// What a timer set to `start` at `since` should read at `now`: one less for
/// every elapsed period, and never below zero.
pub open spec fn due_value(start: u8, since: u64, now: u64) -> u8 {
    if periods_between(since, now) >= start {
        0
    } else {
        (start - periods_between(since, now)) as u8
    }
}

/// An 8-bit counter that, while non-zero, decrements by one per 1/60 s of
/// wall-clock time, and rests at zero.
///
/// The k-th decrement after the timer was set to `start` at time `since` falls
/// at exactly `since + k/60 s`, so the rate does not drift with how often the
/// timer is read.
#[derive(Clone, Copy, Debug)]
pub struct Timer {
    /// The current reading.
    pub value: u8,
    /// The value the timer was last set to.
    pub start: u8,
    /// The time, in nanoseconds, at which the timer was last set.
    pub since: u64,
}

impl Timer {
    /// The timer after bringing it up to time `now`. A reading never goes up,
    /// even if `now` lies before an earlier reading.
    pub open spec fn advanced(self, now: u64) -> Timer {
        let due = due_value(self.start, self.since, now);
        Timer { value: if due < self.value { due } else { self.value }, ..self }
    }

    /// The timer after being set to `value` at time `now`.
    pub open spec fn set_to(self, value: u8, now: u64) -> Timer {
        Timer { value, start: value, since: now }
    }

    /// A stopped timer, reading zero.
    pub fn new() -> (t: Timer)
        ensures
            t == (Timer { value: 0, start: 0, since: 0 }),
    {
        Timer { value: 0, start: 0, since: 0 }
    }

    /// The current reading.
    pub fn value(&self) -> (r: u8)
        ensures
            r == self.value,
    {
        self.value
    }

    /// Sets the timer to `value` at time `now`; it counts down from there.
    pub fn set(&mut self, value: u8, now: u64)
        ensures
            *final(self) == old(self).set_to(value, now),
        no_unwind
    {
        self.value = value;
        self.start = value;
        self.since = now;
    }

    /// Brings the timer up to time `now`, applying every decrement that has
    /// fallen due since it was set.
    pub fn advance(&mut self, now: u64)
        ensures
            *final(self) == old(self).advanced(now),
        no_unwind
    {
        let periods: u64 = if now <= self.since {
            0
        } else {
            let elapsed: u64 = now - self.since;
            proof {
                assert((elapsed as int * 60) / 1_000_000_000 <= elapsed) by (nonlinear_arith)
                    requires elapsed >= 0;
            }
            ((elapsed as u128 * TICKS_PER_SECOND as u128) / NANOS_PER_SECOND as u128) as u64
        };
        let due: u8 = if periods >= self.start as u64 {
            0
        } else {
            self.start - periods as u8
        };
        if due < self.value {
            self.value = due;
        }
    }
}

/// A timer that reads zero stays at zero until it is set again.
pub proof fn lemma_stopped_timer_stays_stopped(t: Timer, now: u64)
    requires
        t.value == 0,
    ensures
        t.advanced(now).value == 0,
{
}

/// Once at least `start`/60 s have passed since a timer was set to `start`, it
/// reads zero, however often it was read in between.
pub proof fn lemma_timer_runs_out(t: Timer, now: u64)
    requires
        now >= t.since,
        (now - t.since) * TICKS_PER_SECOND >= t.start * NANOS_PER_SECOND,
    ensures
        t.advanced(now).value == 0,
{
    let d: int = now - t.since;
    let s: int = t.start as int;
    assert((d * 60) / 1_000_000_000 >= s) by (nonlinear_arith)
        requires d * 60 >= s * 1_000_000_000, s >= 0;
}

/// Reading a timer at `t1` and again at a later `t2` leaves it where a single
/// read at `t2` would: its pace depends on wall-clock time alone, not on how
/// often it is read.
pub proof fn lemma_reads_do_not_change_pace(t: Timer, t1: u64, t2: u64)
    requires
        t1 <= t2,
    ensures
        t.advanced(t1).advanced(t2) == t.advanced(t2),
{
    assert(periods_between(t.since, t1) <= periods_between(t.since, t2)) by {
        if t1 > t.since {
            let a: int = t1 - t.since;
            let b: int = t2 - t.since;
            assert((a * 60) / 1_000_000_000 <= (b * 60) / 1_000_000_000) by (nonlinear_arith)
                requires 0 <= a <= b;
        }
    }
}

} // verus!
