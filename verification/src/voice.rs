//! Per-key voice state and the equal-tempered pitch table.
//!
//! Each of the 128 keys owns one `VoiceState` for the lifetime of the
//! engine. A voice's natural frequency is fixed at construction:
//! `440 * 2^((key - 69) / 12)` Hz, realised as a twelve-entry semitone
//! ratio table combined with exact octave shifts, so that key 69 is
//! exactly 440.0 and each octave step is an exact doubling or halving.

use crate::fixed::{mag, UNIT};
use vstd::arithmetic::div_mod::{
    lemma_div_is_ordered, lemma_div_multiples_vanish_fancy, lemma_div_non_zero,
    lemma_multiply_divide_lt,
};
use vstd::arithmetic::mul::{lemma_mul_nonnegative, lemma_mul_upper_bound};
use vstd::prelude::*;

verus! {

/// Upper bound on every natural frequency in the table (above the pitch of
/// key 127, about 12544 Hz, in Q32.32).
pub const FREQ_CAP: i64 = 57_079_043_007_360;

/// The state of one reed valve voice.
#[derive(Clone, Copy, PartialEq, Eq, Structural, Debug)]
pub struct VoiceState {
    /// Oscillator phase, nominally in [0, 1); wraps by subtracting 1.
    pub phase: i64,
    /// One-pole filter history sample, in [-1, 1].
    pub sample_history: i64,
    /// Valve aperture in [0, 1].
    pub valve_aperture: i64,
    /// Whether the valve is being driven open.
    pub opening: bool,
    /// Attack strength in [0, 1], captured from the triggering velocity.
    pub attack: i64,
    /// Natural frequency in Hz, fixed at construction from the key index.
    pub freq: i64,
}

/// Q32.32 ratios `2^(r/12)` for one octave of semitones.
pub open spec fn semitone_ratio_s(r: int) -> int {
    if r == 0 {
        0x1_0000_0000
    } else if r == 1 {
        4550359342
    } else if r == 2 {
        4820937788
    } else if r == 3 {
        5107605667
    } else if r == 4 {
        5411319705
    } else if r == 5 {
        5733093519
    } else if r == 6 {
        6074001000
    } else if r == 7 {
        6435179895
    } else if r == 8 {
        6817835604
    } else if r == 9 {
        7223245206
    } else if r == 10 {
        7652761717
    } else {
        8107818609
    }
}

/// Small powers of two for octave shifts.
pub open spec fn octave_mult_s(e: int) -> int {
    if e <= 0 {
        1
    } else if e == 1 {
        2
    } else if e == 2 {
        4
    } else if e == 3 {
        8
    } else if e == 4 {
        16
    } else if e == 5 {
        32
    } else {
        64
    }
}

/// Natural frequency of a key: `440 * 2^((key - 69) / 12)` Hz in Q32.32,
/// computed from the semitone ratio table with exact octave shifts.
/// Downward octave shifts truncate.
pub open spec fn note_freq_s(key: int) -> int {
    let n = key + 51;  // key - 69, offset into octave 0 of the table
    let oct = n / 12;
    let r = n % 12;
    let f0 = 440 * semitone_ratio_s(r);
    if oct >= 10 {
        f0 * octave_mult_s(oct - 10)
    } else {
        f0 / octave_mult_s(10 - oct)
    }
}

/// A freshly constructed, silent voice for the given key.
pub open spec fn initial_voice_s(key: int) -> VoiceState {
    VoiceState {
        phase: 0,
        sample_history: 0,
        valve_aperture: 0,
        opening: false,
        attack: 0,
        freq: note_freq_s(key) as i64,
    }
}

/// Well-formedness of a voice owned by `key`: every field in its band and
/// the frequency equal to the key's table entry.
pub open spec fn voice_wf(v: VoiceState, key: int) -> bool {
    &&& 0 <= v.valve_aperture <= UNIT
    &&& 0 <= v.phase < 2 * (UNIT as int)
    &&& -UNIT <= v.sample_history <= UNIT
    &&& 0 <= v.attack <= UNIT
    &&& v.freq == note_freq_s(key)
}

/// Exec mirror of `semitone_ratio_s`.
fn semitone_ratio(r: u32) -> (m: i64)
    requires
        r < 12,
    ensures
        m as int == semitone_ratio_s(r as int),
        0x1_0000_0000 <= m <= 8107818609,
{
    if r == 0 {
        0x1_0000_0000
    } else if r == 1 {
        4550359342
    } else if r == 2 {
        4820937788
    } else if r == 3 {
        5107605667
    } else if r == 4 {
        5411319705
    } else if r == 5 {
        5733093519
    } else if r == 6 {
        6074001000
    } else if r == 7 {
        6435179895
    } else if r == 8 {
        6817835604
    } else if r == 9 {
        7223245206
    } else if r == 10 {
        7652761717
    } else {
        8107818609
    }
}

/// Exec mirror of `octave_mult_s`.
fn octave_mult(e: u32) -> (m: i64)
    requires
        e <= 6,
    ensures
        m as int == octave_mult_s(e as int),
        1 <= m <= 64,
{
    if e == 0 {
        1
    } else if e == 1 {
        2
    } else if e == 2 {
        4
    } else if e == 3 {
        8
    } else if e == 4 {
        16
    } else if e == 5 {
        32
    } else {
        64
    }
}

/// Natural frequency of a key, exact with respect to `note_freq_s` and
/// bounded by `FREQ_CAP`. Key 69 (A4) yields exactly 440.0; key 57 yields
/// exactly 220.0.
pub fn note_freq(key: u8) -> (f: i64)
    requires
        key < 128,
    ensures
        f as int == note_freq_s(key as int),
        0 < f <= FREQ_CAP,
        mag(f as int) <= FREQ_CAP,
{
    let n: u32 = key as u32 + 51;
    let oct: u32 = n / 12;
    let r: u32 = n % 12;
    proof {
        lemma_multiply_divide_lt(n as int, 12, 15);
        lemma_div_multiples_vanish_fancy(4, 3, 12);
        lemma_div_is_ordered(51, n as int, 12);
    }
    let ratio: i64 = semitone_ratio(r);
    let f0: i64 = 440 * ratio;
    if oct >= 10 {
        let m: i64 = octave_mult(oct - 10);
        proof {
            let f0i = f0 as int;
            let mi = m as int;
            lemma_mul_upper_bound(f0i, 3567440187960, mi, 16);
            lemma_mul_nonnegative(f0i, mi);
            assert(f0i * 1 <= f0i * mi) by (nonlinear_arith)
                requires
                    0 < f0i,
                    1 <= mi,
            ;
        }
        f0 * m
    } else {
        let m: i64 = octave_mult(10 - oct);
        let f: u64 = (f0 as u64) / (m as u64);
        proof {
            let f0i = f0 as int;
            let mi = m as int;
            lemma_div_non_zero(f0i, mi);
            assert(f0i < mi * f0i) by (nonlinear_arith)
                requires
                    0 < f0i,
                    2 <= mi,
            ;
            lemma_multiply_divide_lt(f0i, mi, f0i);
        }
        f as i64
    }
}

impl VoiceState {
    /// A silent voice for `key`, with its natural frequency fixed from the
    /// pitch table.
    pub fn new(key: u8) -> (v: VoiceState)
        requires
            key < 128,
        ensures
            v == initial_voice_s(key as int),
            voice_wf(v, key as int),
    {
        let freq = note_freq(key);
        VoiceState { phase: 0, sample_history: 0, valve_aperture: 0, opening: false, attack: 0, freq }
    }
}

} // verus!
