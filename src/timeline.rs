use vstd::prelude::*;
use vstd::arithmetic::div_mod::{lemma_fundamental_div_mod, lemma_fundamental_div_mod_converse};

verus! {

/// Beats, phases and quanta are counted in millionths of a beat.
pub const BEAT_UNIT: i64 = 1000000;

/// The number of decimals in a beat count.
pub const BEAT_DIGITS: u32 = 6;

/// Tempi are counted in millionths of a beat per minute.
pub const TEMPO_DIGITS: u32 = 6;

/// `v` divided by `d`, rounded down.
pub fn floor_div(v: i64, d: i64) -> (r: i64)
    requires
        d > 0,
    ensures
        r == v / d,
{
    if v >= 0 {
        v / d
    } else {
        let a = -(v + 1);
        let q = a / d;
        proof {
            let m = a % d;
            lemma_fundamental_div_mod(a as int, d as int);
            assert(v == d * (-q - 1) + (d - m - 1)) by (nonlinear_arith)
                requires
                    a == d * q + m,
                    v == -(a + 1),
            ;
            lemma_fundamental_div_mod_converse(v as int, d as int, -q - 1, d - m - 1);
        }
        -q - 1
    }
}

/// The remainder of `v` divided by `d`, in `[0, d)`.
pub fn floor_mod(v: i64, d: i64) -> (r: i64)
    requires
        d > 0,
    ensures
        r == v % d,
        0 <= r < d,
{
    if v >= 0 {
        v % d
    } else {
        let a = -(v + 1);
        let m = a % d;
        proof {
            let q = a / d;
            lemma_fundamental_div_mod(a as int, d as int);
            assert(v == d * (-q - 1) + (d - m - 1)) by (nonlinear_arith)
                requires
                    a == d * q + m,
                    v == -(a + 1),
            ;
            lemma_fundamental_div_mod_converse(v as int, d as int, -q - 1, d - m - 1);
        }
        d - m - 1
    }
}

/// The bar that `beat` falls in: the number of whole quanta before it.
pub open spec fn bar_at(beat: int, quantum: int) -> int {
    beat / quantum
}

/// The index of the bar that `beat` falls in.
pub fn bar_of(beat: i64, quantum: i64) -> (r: i64)
    requires
        quantum > 0,
    ensures
        r == bar_at(beat as int, quantum as int),
{
    floor_div(beat, quantum)
}

/// A count of millionths rounded to the nearest hundredth, halves rounding up.
pub open spec fn hundredths(v: int) -> int {
    (v + 5000) / 10000
}

/// Rounds millionths to hundredths.
pub fn round_hundredths(v: i64) -> (r: i64)
    ensures
        r == hundredths(v as int),
{
    let q = floor_div(v, 10000);
    let m = floor_mod(v, 10000);
    proof {
        lemma_fundamental_div_mod(v as int, 10000);
        if m >= 5000 {
            lemma_fundamental_div_mod_converse(v + 5000, 10000, q + 1, m - 5000);
        } else {
            lemma_fundamental_div_mod_converse(v + 5000, 10000, q as int, m + 5000);
        }
    }
    if m >= 5000 {
        q + 1
    } else {
        q
    }
}

/// Rounds millionths to hundredths, for counts that cannot be negative.
pub fn round_hundredths_u64(v: u64) -> (r: u64)
    ensures
        r == hundredths(v as int),
{
    let q = v / 10000;
    let m = v % 10000;
    proof {
        lemma_fundamental_div_mod(v as int, 10000);
        if m >= 5000 {
            lemma_fundamental_div_mod_converse(v + 5000, 10000, q + 1, m - 5000);
        } else {
            lemma_fundamental_div_mod_converse(v + 5000, 10000, q as int, m + 5000);
        }
    }
    if m >= 5000 {
        q + 1
    } else {
        q
    }
}

/// The beat at which the next bar starts, as seen from `beat` at `phase` in a quantum:
/// a whole quantum ahead when the phase is exactly zero.
pub open spec fn next_boundary(beat: int, phase: int, quantum: int) -> int {
    beat + (quantum - phase)
}

pub fn next_boundary_beat(beat: i64, phase: i64, quantum: i64) -> (r: i64)
    requires
        0 <= phase < quantum,
        beat + quantum <= i64::MAX,
    ensures
        r == next_boundary(beat as int, phase as int, quantum as int),
{
    beat + (quantum - phase)
}

/// Where the phase agrees with the beat, the next boundary lies on a whole number of
/// quanta, strictly after the beat and at most one quantum later.
pub proof fn lemma_next_boundary_on_grid(beat: int, phase: int, quantum: int)
    requires
        quantum > 0,
        phase == beat % quantum,
    ensures
        next_boundary(beat, phase, quantum) % quantum == 0,
        beat < next_boundary(beat, phase, quantum) <= beat + quantum,
{
    lemma_fundamental_div_mod(beat, quantum);
    let q = beat / quantum;
    assert(next_boundary(beat, phase, quantum) == quantum * (q + 1)) by (nonlinear_arith)
        requires
            beat == quantum * q + phase,
    ;
    lemma_fundamental_div_mod_converse(next_boundary(beat, phase, quantum), quantum, q + 1, 0);
}

} // verus!
