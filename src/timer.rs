use vstd::prelude::*;

verus! {

/// One second in nanoseconds. Pending time is kept in units of 1/60 ns,
/// so that one tick of 1/60 second is exactly this many units.
pub const TICK_UNITS: u64 = 1_000_000_000;

/// The delay and sound countdown timers, decremented at 60 Hz.
pub struct Timer {
    pub sound: u8,
    pub delay: u8,
    /// Time elapsed since the last tick, in units of 1/60 ns.
    pub pending: u64,
}

/// Number of whole 1/60 second ticks in `pending` units plus `elapsed_nanos` nanoseconds.
pub open spec fn ticks_in(pending: u64, elapsed_nanos: u64) -> int {
    (pending as int + elapsed_nanos as int * 60) / TICK_UNITS as int
}

/// A counter after `n` ticks: decremented once per tick, never below zero.
pub open spec fn count_down(value: u8, n: int) -> u8 {
    if n >= value as int { 0 } else { (value as int - n) as u8 }
}

impl Timer {
    pub open spec fn wf(&self) -> bool {
        self.pending < TICK_UNITS
    }

    pub fn new() -> (r: Timer)
        ensures
            r.wf(),
            r.sound == 0,
            r.delay == 0,
            r.pending == 0,
    {
        Timer { sound: 0, delay: 0, pending: 0 }
    }

    /// Advances both timers by `elapsed_nanos` nanoseconds of real time: each
    /// nonzero counter drops by one for every whole 1/60 second completed since
    /// the last tick.
    pub fn delay_countdown(&mut self, elapsed_nanos: u64)
        requires
            old(self).wf(),
        ensures
            final(self).wf(),
            final(self).delay == count_down(old(self).delay, ticks_in(old(self).pending, elapsed_nanos)),
            final(self).sound == count_down(old(self).sound, ticks_in(old(self).pending, elapsed_nanos)),
            final(self).pending == (old(self).pending as int + elapsed_nanos as int * 60) % TICK_UNITS as int,
    {
        let total: u128 = self.pending as u128 + elapsed_nanos as u128 * 60;
        let ticks: u128 = total / TICK_UNITS as u128;
        self.pending = (total % TICK_UNITS as u128) as u64;
        if ticks >= self.delay as u128 {
            self.delay = 0;
        } else {
            self.delay = self.delay - ticks as u8;
        }
        if ticks >= self.sound as u128 {
            self.sound = 0;
        } else {
            self.sound = self.sound - ticks as u8;
        }
    }
}

/// Starting right after a tick, an elapsed time of `n` whole 1/60 second
/// intervals (and less than one more) lowers each counter by exactly `n`,
/// never below zero; a time short of one interval since the last tick
/// leaves both counters as they were.
pub proof fn lemma_countdown_by_ticks(t: Timer, elapsed_nanos: u64, n: nat)
    requires
        t.wf(),
    ensures
        t.pending == 0 && n * TICK_UNITS <= elapsed_nanos * 60 < (n + 1) * TICK_UNITS ==> {
            &&& count_down(t.delay, ticks_in(t.pending, elapsed_nanos)) == if n >= t.delay { 0 } else { t.delay - n }
            &&& count_down(t.sound, ticks_in(t.pending, elapsed_nanos)) == if n >= t.sound { 0 } else { t.sound - n }
        },
        t.pending + elapsed_nanos * 60 < TICK_UNITS ==> {
            &&& count_down(t.delay, ticks_in(t.pending, elapsed_nanos)) == t.delay
            &&& count_down(t.sound, ticks_in(t.pending, elapsed_nanos)) == t.sound
        },
{
    if t.pending == 0 && n * TICK_UNITS <= elapsed_nanos * 60 < (n + 1) * TICK_UNITS {
        let e = elapsed_nanos as int * 60;
        assert(e / (TICK_UNITS as int) == n) by (nonlinear_arith)
            requires
                n * 1_000_000_000 <= e < (n + 1) * 1_000_000_000,
                TICK_UNITS == 1_000_000_000,
        ;
    }
}

} // verus!
