use vstd::prelude::*;

use crate::numtext::{dec, fixed_text, pad_right, push_decimal, push_fixed, push_fixed_u64, push_padded};
use crate::timeline::{hundredths, round_hundredths, round_hundredths_u64, BEAT_UNIT};

verus! {

/// What one capture from the shared tempo clock reads, in the library's units: times in
/// microseconds of the shared timeline, the tempo in millionths of a beat per minute,
/// beats and phase in millionths of a beat.
#[derive(Debug, Clone, Copy, PartialEq, Eq, Structural)]
pub struct SessionState {
    pub time: i64,
    pub tempo: u64,
    pub playing: bool,
    pub beat: i64,
    pub phase: i64,
    pub enabled: bool,
    pub num_peers: u64,
    pub start_stop_sync: bool,
}

pub open spec fn yes_no(b: bool) -> Seq<char> {
    if b {
        "yes"@
    } else {
        "no "@
    }
}

pub open spec fn transport(playing: bool) -> Seq<char> {
    if playing {
        "[playing]"@
    } else {
        "[stopped]"@
    }
}

/// The metronome display: one character per whole beat of the quantum, `X` up to and
/// including the beat that the phase is in, `O` after it.
pub open spec fn metro(quantum: int, phase: int) -> Seq<char> {
    Seq::new((quantum / BEAT_UNIT as int) as nat, |i: int| if i <= phase / BEAT_UNIT as int { 'X' } else { 'O' })
}

/// The status line: seven pipe-separated fields, then the metronome display. Tempo and
/// beat show two decimals.
pub open spec fn report_text(st: SessionState, quantum: int) -> Seq<char> {
    pad_right(yes_no(st.enabled), 7) + " | "@ + pad_right(dec(st.num_peers as nat), 9) + " | "@
        + pad_right(dec((quantum / BEAT_UNIT as int) as nat), 7) + " | "@ + pad_right(
        yes_no(st.start_stop_sync),
        3,
    ) + "   "@ + pad_right(transport(st.playing), 9) + " | "@ + pad_right(
        fixed_text(hundredths(st.tempo as int), 2),
        7,
    ) + " | "@ + pad_right(fixed_text(hundredths(st.beat as int), 2), 8)
        + " | "@ + metro(quantum, st.phase as int)
}

pub fn yes_no_str(b: bool) -> (r: &'static str)
    ensures
        r@ == yes_no(b),
{
    if b {
        "yes"
    } else {
        "no "
    }
}

pub fn transport_str(playing: bool) -> (r: &'static str)
    ensures
        r@ == transport(playing),
{
    if playing {
        "[playing]"
    } else {
        "[stopped]"
    }
}

/// The metronome display for `phase` within `quantum`.
pub fn metro_string(quantum: i64, phase: i64) -> (r: String)
    requires
        quantum > 0,
        0 <= phase < quantum,
    ensures
        r@ == metro(quantum as int, phase as int),
        r@.len() == quantum / BEAT_UNIT,
{
    let n = quantum / BEAT_UNIT;
    let p = phase / BEAT_UNIT;
    let mut out = String::new();
    let mut i: i64 = 0;
    while i < n
        invariant
            0 <= i <= n,
            n == quantum / BEAT_UNIT,
            p == phase / BEAT_UNIT,
            out@ == Seq::new(i as nat, |j: int| if j <= p { 'X' } else { 'O' }),
        decreases n - i,
    {
        proof {
            reveal_strlit("X");
            reveal_strlit("O");
        }
        if i <= p {
            out.append("X");
        } else {
            out.append("O");
        }
        i = i + 1;
        assert(out@ =~= Seq::new(i as nat, |j: int| if j <= p { 'X' } else { 'O' }));
    }
    assert(out@ =~= metro(quantum as int, phase as int));
    out
}

/// The status line for a captured state and a quantum.
pub fn report_line(st: &SessionState, quantum: i64) -> (r: String)
    requires
        quantum > 0,
        0 <= st.phase < quantum,
    ensures
        r@ == report_text(*st, quantum as int),
{
    let mut out = String::new();
    push_padded(&mut out, yes_no_str(st.enabled), 7);
    out.append(" | ");
    let mut peers = String::new();
    push_decimal(&mut peers, st.num_peers);
    push_padded(&mut out, peers.as_str(), 9);
    out.append(" | ");
    let mut q = String::new();
    push_decimal(&mut q, (quantum / BEAT_UNIT) as u64);
    push_padded(&mut out, q.as_str(), 7);
    out.append(" | ");
    push_padded(&mut out, yes_no_str(st.start_stop_sync), 3);
    out.append("   ");
    push_padded(&mut out, transport_str(st.playing), 9);
    out.append(" | ");
    let mut tempo = String::new();
    push_fixed_u64(&mut tempo, round_hundredths_u64(st.tempo), 2);
    push_padded(&mut out, tempo.as_str(), 7);
    out.append(" | ");
    let mut beats = String::new();
    push_fixed(&mut beats, round_hundredths(st.beat), 2);
    push_padded(&mut out, beats.as_str(), 8);
    out.append(" | ");
    let metro = metro_string(quantum, st.phase);
    out.append(metro.as_str());
    assert(out@ =~= report_text(*st, quantum as int));
    out
}

} // verus!
