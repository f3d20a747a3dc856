//! The cadence on which stale process records are pruned.
//!
//! The sampling loop sleeps one interval per iteration and counts the
//! intervals down; each time the count runs out the caller prunes the records
//! of processes that have ended, and the count starts over.

use vstd::prelude::*;

verus! {

/// Sampling intervals between two prunings, unless configured otherwise.
pub const CLEANUP_PERIOD: u64 = 120;

/// Counts sampling intervals down to the next pruning.
pub struct CleanupTimer {
    period: u64,
    remaining: u64,
}

/// What a [`CleanupTimer`] holds, as mathematical values.
pub ghost struct TimerModel {
    /// Intervals the count starts over from.
    pub period: nat,
    /// Intervals left on the count.
    pub remaining: nat,
}

impl View for CleanupTimer {
    type V = TimerModel;

    closed spec fn view(&self) -> TimerModel {
        TimerModel { period: self.period as nat, remaining: self.remaining as nat }
    }
}

/// A timer that has not ticked yet.
pub open spec fn fresh(period: nat) -> TimerModel {
    TimerModel { period, remaining: period }
}

/// Whether the next tick asks for a pruning.
pub open spec fn fires(timer: TimerModel) -> bool {
    timer.remaining <= 1
}

/// The timer one tick later.
pub open spec fn after_tick(timer: TimerModel) -> TimerModel {
    if fires(timer) {
        TimerModel { remaining: timer.period, ..timer }
    } else {
        TimerModel { remaining: (timer.remaining - 1) as nat, ..timer }
    }
}

/// The timer `ticks` ticks later.
pub open spec fn after_ticks(timer: TimerModel, ticks: nat) -> TimerModel
    decreases ticks,
{
    if ticks == 0 {
        timer
    } else {
        after_tick(after_ticks(timer, (ticks - 1) as nat))
    }
}

/// Ticks from one pruning to the next: the period, and one where the period is zero.
pub open spec fn cadence(period: nat) -> nat {
    if period == 0 {
        1
    } else {
        period
    }
}

impl CleanupTimer {
    /// A timer that asks for a pruning every `period` ticks, every tick where
    /// `period` is zero.
    pub fn new(period: u64) -> (timer: CleanupTimer)
        ensures
            timer@ == fresh(period as nat),
    {
        CleanupTimer { period, remaining: period }
    }

    /// Intervals the count starts over from.
    pub fn period(&self) -> (period: u64)
        ensures
            period == self@.period,
    {
        self.period
    }

    /// Intervals left on the count.
    pub fn remaining(&self) -> (remaining: u64)
        ensures
            remaining == self@.remaining,
    {
        self.remaining
    }

    /// Counts one interval and says whether to prune now.
    pub fn tick(&mut self) -> (cleanup: bool)
        ensures
            cleanup == fires(old(self)@),
            final(self)@ == after_tick(old(self)@),
    {
        if self.remaining > 1 {
            self.remaining = self.remaining - 1;
            false
        } else {
            self.remaining = self.period;
            true
        }
    }
}

/// What is left on a fresh timer after `ticks` ticks.
proof fn lemma_remaining(period: nat, ticks: nat)
    requires
        period >= 1,
    ensures
        after_ticks(fresh(period), ticks).period == period,
        after_ticks(fresh(period), ticks).remaining == period - ticks % period,
    decreases ticks,
{
    if ticks == 0 {
        assert(0nat % period == 0) by (nonlinear_arith)
            requires
                period >= 1,
        ;
    } else {
        let before = (ticks - 1) as nat;
        lemma_remaining(period, before);
        lemma_mod_successor(before, period);
    }
}

/// The remainder of `n + 1` from that of `n`.
proof fn lemma_mod_successor(n: nat, d: nat)
    requires
        d >= 1,
    ensures
        n % d < d,
        (n + 1) % d == if n % d == d - 1 { 0 } else { n % d + 1 },
{
    assert(0 <= n % d < d) by (nonlinear_arith)
        requires
            d >= 1,
    ;
    vstd::arithmetic::div_mod::lemma_fundamental_div_mod(n as int, d as int);
    let q = n as int / d as int;
    let r = n as int % d as int;
    if r == d - 1 {
        assert(n + 1 == (q + 1) * d + 0) by (nonlinear_arith)
            requires
                n == d * q + r,
                r == d - 1,
        ;
        vstd::arithmetic::div_mod::lemma_fundamental_div_mod_converse(
            (n + 1) as int,
            d as int,
            q + 1,
            0,
        );
    } else {
        assert(n + 1 == q * d + (r + 1)) by (nonlinear_arith)
            requires
                n == d * q + r,
        ;
        vstd::arithmetic::div_mod::lemma_fundamental_div_mod_converse(
            (n + 1) as int,
            d as int,
            q,
            r + 1,
        );
    }
}

/// On a fresh timer the ticks that ask for a pruning are the multiples of the
/// cadence, and no others: with a period of 120, the 120th, the 240th and so
/// on. What else happens between two ticks has no part in it.
pub proof fn lemma_cleanup_cadence(period: nat, tick: nat)
    requires
        tick >= 1,
    ensures
        fires(after_ticks(fresh(period), (tick - 1) as nat)) <==> tick % cadence(period) == 0,
{
    let before = (tick - 1) as nat;
    if period == 0 {
        lemma_idle(before);
    } else {
        lemma_remaining(period, before);
        lemma_mod_successor(before, period);
    }
}

/// A timer with period zero stays as it is.
proof fn lemma_idle(ticks: nat)
    ensures
        after_ticks(fresh(0), ticks) == fresh(0),
    decreases ticks,
{
    if ticks > 0 {
        lemma_idle((ticks - 1) as nat);
    }
}

} // verus!
