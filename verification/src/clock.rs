//! Rotation deadline logic: decides when the active output file must be
//! closed and a new one opened.

use vstd::prelude::*;
use vstd::arithmetic::div_mod::{
    lemma_fundamental_div_mod, lemma_mod_decreases, lemma_mod_multiples_basic,
    lemma_mod_multiples_vanish,
};

verus! {

/// Pure rotation policy. Times are seconds since the reference epoch.
///
/// In aligned mode, rotation boundaries fall on exact multiples of the
/// interval since the epoch, so splits land on wall-clock boundaries.
/// In unaligned mode, the first boundary is simply the start time plus
/// one interval.
pub struct RotationClock {
    interval: u64,
    next_deadline: u64,
    aligned: bool,
}

impl RotationClock {
    /// Length of one rotation period, in seconds.
    pub closed spec fn interval(self) -> u64 {
        self.interval
    }

    /// The next moment at which a rotation is due.
    pub closed spec fn deadline(self) -> u64 {
        self.next_deadline
    }

    /// Whether boundaries are pinned to the epoch grid.
    pub closed spec fn aligned(self) -> bool {
        self.aligned
    }

    pub open spec fn wf(self) -> bool {
        self.interval() > 0
    }

    /// The deadline is an exact multiple of the interval since the epoch.
    pub open spec fn on_grid(self) -> bool {
        self.deadline() % self.interval() == 0
    }

    /// The deadline held after `rotations` further calls to `advance`.
    pub open spec fn deadline_after(self, rotations: nat) -> int {
        self.deadline() + rotations * self.interval()
    }

    /// Create a clock. Aligned: the first deadline is the largest grid
    /// multiple of the interval at or below the start time (which has
    /// already passed, so the first rotation check fires at once and the
    /// following deadlines land on the grid). Unaligned: the first deadline
    /// is the start time plus one interval.
    pub fn new(interval: u64, aligned: bool, start: u64) -> (clock: Self)
        requires
            interval > 0,
            start + interval <= u64::MAX,
        ensures
            clock.wf(),
            clock.interval() == interval,
            clock.aligned() == aligned,
            aligned ==> clock.deadline() == start - start % interval,
            !aligned ==> clock.deadline() == start + interval,
            aligned ==> clock.on_grid(),
            aligned ==> clock.deadline() <= start,
    {
        proof {
            lemma_mod_decreases(start as nat, interval as nat);
        }
        let next_deadline: u64 = if aligned {
            start - start % interval
        } else {
            start + interval
        };
        proof {
            if aligned {
                lemma_fundamental_div_mod(start as int, interval as int);
                lemma_mod_multiples_basic(start as int / interval as int, interval as int);
            }
        }
        RotationClock { interval, next_deadline, aligned }
    }

    /// True iff the active file must be rotated at time `now`.
    pub fn should_rotate(&self, now: u64) -> (due: bool)
        ensures
            due == (now >= self.deadline()),
    {
        now >= self.next_deadline
    }

    /// Move the deadline forward by exactly one interval. The new deadline
    /// is never recomputed from the current time, so the grid phase is kept
    /// even when a rotation check fires late.
    pub fn advance(&mut self)
        requires
            old(self).deadline() + old(self).interval() <= u64::MAX,
        ensures
            final(self).interval() == old(self).interval(),
            final(self).aligned() == old(self).aligned(),
            final(self).deadline() == old(self).deadline() + old(self).interval(),
            old(self).wf() ==> final(self).wf(),
            old(self).wf() && old(self).on_grid() ==> final(self).on_grid(),
    {
        proof {
            if self.interval > 0 && self.next_deadline % self.interval == 0 {
                lemma_mod_multiples_vanish(
                    1,
                    self.next_deadline as int,
                    self.interval as int,
                );
            }
        }
        self.next_deadline = self.next_deadline + self.interval;
    }

    /// The next deadline, for observation.
    pub fn current_deadline(&self) -> (deadline: u64)
        ensures
            deadline == self.deadline(),
    {
        self.next_deadline
    }

    /// Law: once a clock sits on the epoch grid, every deadline it will ever
    /// hold is an exact multiple of the interval since the epoch, and
    /// successive deadlines differ by exactly one interval — no matter how
    /// many rotation checks (which never change the clock) occur in between.
    pub proof fn lemma_aligned_deadline_grid(clock: RotationClock, rotations: nat)
        requires
            clock.wf(),
            clock.on_grid(),
        ensures
            clock.deadline_after(rotations) % (clock.interval() as int) == 0,
            clock.deadline_after(rotations + 1) == clock.deadline_after(rotations)
                + clock.interval(),
    {
        lemma_mod_multiples_vanish(
            rotations as int,
            clock.deadline() as int,
            clock.interval() as int,
        );
        assert(clock.interval() as int * rotations as int
            == rotations as int * clock.interval() as int) by (nonlinear_arith);
        assert((rotations + 1) * clock.interval() as int
            == rotations * clock.interval() as int + clock.interval() as int)
            by (nonlinear_arith);
    }
}

} // verus!
