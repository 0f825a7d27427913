use vstd::prelude::*;
use vstd::arithmetic::div_mod::{lemma_fundamental_div_mod, lemma_fundamental_div_mod_converse};

verus! {

/// The nominal tick period, in microseconds.
pub const TICK_PERIOD_MICROS: i64 = 20000;

/// The deadline that follows `deadline` once a tick that ended at `now` is done: one
/// period later, or, where that too has passed, the first point of the same grid after
/// `now`, so that missed ticks are skipped rather than run back to back.
pub open spec fn following_deadline(deadline: int, period: int, now: int) -> int {
    if now < deadline + period {
        deadline + period
    } else {
        deadline + ((now - deadline) / period + 1) * period
    }
}

/// The deadline after a run of ticks that ended at the times in `nows`, from `start`.
pub open spec fn deadline_after(start: int, period: int, nows: Seq<int>) -> int
    decreases nows.len(),
{
    if nows.len() == 0 {
        start
    } else {
        following_deadline(deadline_after(start, period, nows.drop_last()), period, nows.last())
    }
}

/// Computes the next deadline by accumulation from the previous one, never from the
/// time that the work took.
pub fn next_deadline(deadline: i64, period: i64, now: i64) -> (r: i64)
    requires
        period > 0,
        deadline + period <= i64::MAX,
        now + period <= i64::MAX,
    ensures
        r == following_deadline(deadline as int, period as int, now as int),
        r > now,
        r > deadline,
        (r - deadline) % (period as int) == 0,
{
    if now < deadline + period {
        proof {
            lemma_fundamental_div_mod_converse(period as int, period as int, 1, 0);
        }
        deadline + period
    } else {
        let k: i128 = (now as i128 - deadline as i128) / (period as i128) + 1;
        proof {
            let e: int = now - deadline;
            let p: int = period as int;
            lemma_fundamental_div_mod(e, p);
            assert(k * p == e - e % p + p) by (nonlinear_arith)
                requires
                    e == p * (e / p) + e % p,
                    k == e / p + 1,
            ;
            lemma_fundamental_div_mod_converse(k * p, p, k as int, 0);
        }
        (deadline as i128 + k * (period as i128)) as i64
    }
}

/// How long to sleep before `deadline`; nothing where it has already passed.
pub fn sleep_micros(deadline: i64, now: i64) -> (r: u64)
    ensures
        now < deadline ==> r == deadline - now,
        now >= deadline ==> r == 0,
{
    if now < deadline {
        (deadline as i128 - now as i128) as u64
    } else {
        0
    }
}

/// Deadlines never drift off the grid of `start` and `period`: after any run of ticks
/// the deadline lies a whole number of periods (at least one per tick) after the start,
/// and where every tick ended before its slot of the grid closed, the deadline is
/// exactly `start` plus one period per tick.
pub proof fn lemma_deadlines_keep_to_grid(start: int, period: int, nows: Seq<int>)
    requires
        period > 0,
    ensures
        (deadline_after(start, period, nows) - start) % period == 0,
        deadline_after(start, period, nows) >= start + nows.len() * period,
        (forall|i: int| 0 <= i < nows.len() ==> #[trigger] nows[i] < start + (i + 1) * period)
            ==> deadline_after(start, period, nows) == start + nows.len() * period,
    decreases nows.len(),
{
    if nows.len() == 0 {
        lemma_fundamental_div_mod_converse(0, period, 0, 0);
    } else {
        let prev = nows.drop_last();
        lemma_deadlines_keep_to_grid(start, period, prev);
        let d = deadline_after(start, period, prev);
        let now = nows.last();
        let m = (d - start) / period;
        lemma_fundamental_div_mod(d - start, period);
        assert(d == start + m * period) by (nonlinear_arith)
            requires
                d - start == period * m + (d - start) % period,
                (d - start) % period == 0,
        ;
        assert(m >= prev.len()) by (nonlinear_arith)
            requires
                d == start + m * period,
                d >= start + prev.len() * period,
                period > 0,
        ;
        let r = deadline_after(start, period, nows);
        if now < d + period {
            assert(r - start == (m + 1) * period) by (nonlinear_arith)
                requires
                    r == d + period,
                    d == start + m * period,
            ;
            lemma_fundamental_div_mod_converse(r - start, period, m + 1, 0);
            assert(r >= start + nows.len() * period) by (nonlinear_arith)
                requires
                    r - start == (m + 1) * period,
                    m >= prev.len(),
                    nows.len() == prev.len() + 1,
                    period > 0,
            ;
        } else {
            let k = (now - d) / period + 1;
            assert(k >= 1) by (nonlinear_arith)
                requires
                    now - d >= period,
                    period > 0,
                    k == (now - d) / period + 1,
            ;
            assert(r - start == (m + k) * period) by (nonlinear_arith)
                requires
                    r == d + k * period,
                    d == start + m * period,
            ;
            lemma_fundamental_div_mod_converse(r - start, period, m + k, 0);
            assert(r >= start + nows.len() * period) by (nonlinear_arith)
                requires
                    r - start == (m + k) * period,
                    m >= prev.len(),
                    k >= 1,
                    nows.len() == prev.len() + 1,
                    period > 0,
            ;
        }
        if forall|i: int| 0 <= i < nows.len() ==> #[trigger] nows[i] < start + (i + 1) * period {
            assert forall|i: int| 0 <= i < prev.len() implies #[trigger] prev[i] < start + (i + 1)
                * period by {
                assert(prev[i] == nows[i]);
            }
            assert(nows[nows.len() - 1] == now);
            assert(d == start + prev.len() * period);
            assert(now < d + period) by (nonlinear_arith)
                requires
                    now < start + (prev.len() + 1) * period,
                    d == start + prev.len() * period,
            ;
            assert(r == start + nows.len() * period) by (nonlinear_arith)
                requires
                    r == d + period,
                    d == start + prev.len() * period,
                    nows.len() == prev.len() + 1,
            ;
        }
    }
}

} // verus!
