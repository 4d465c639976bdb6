//! The fractional-octave table: the pitches of the twelve lowest MIDI keys in
//! fixed point.

use vstd::prelude::*;
use vstd::arithmetic::power2::pow2;
use vstd::arithmetic::power2::lemma2_to64;
use vstd::arithmetic::power2::lemma_pow2_adds;

verus! {

/// The pitch of MIDI key 69 in hertz.
pub const REFERENCE_PITCH: u32 = 440;

/// The MIDI key that sounds at [`REFERENCE_PITCH`].
pub const REFERENCE_KEY: u16 = 69;

/// Fixed-point scale of the table entries.
pub const EXP_FRAC_SCALE: u32 = 512;

/// Frequencies of MIDI keys 0 to 11 in hertz, multiplied by
/// [`EXP_FRAC_SCALE`] and rounded to the nearest integer.
pub const EXP_FRAC: [u32; 12] = [
    4186, 4435, 4699, 4978, 5274, 5588, 5920, 6272, 6645, 7040, 7459, 7902,
];

/// The table entry of a semitone, as a mathematical integer.
pub open spec fn exp_frac(semitone: int) -> int
    recommends
        0 <= semitone < 12,
{
    EXP_FRAC[semitone] as int
}

/// The twelfth power of `x`.
pub open spec fn twelfth_power(x: int) -> int {
    let square = x * x;
    let fourth = square * square;
    fourth * fourth * fourth
}

/// Whether `entry` is the integer nearest to the frequency of `key` in hertz
/// times [`EXP_FRAC_SCALE`], where key 69 sounds at 440 Hz and twelve keys up
/// double the frequency:
///
/// `entry - 1/2 < 440 * 2^((key - 69) / 12) * EXP_FRAC_SCALE < entry + 1/2`.
///
/// The three sides are doubled, raised to the twelfth power and multiplied by
/// 2^69, which leaves integers and keeps the order for `entry >= 1`.
pub open spec fn nearest_to_scaled_pitch(entry: int, key: int) -> bool
    recommends
        entry >= 1,
        key >= 0,
{
    let pitch = twelfth_power(2 * REFERENCE_PITCH * EXP_FRAC_SCALE) * pow2(key as nat);
    &&& twelfth_power(2 * entry - 1) * pow2(REFERENCE_KEY as nat) < pitch
    &&& pitch < twelfth_power(2 * entry + 1) * pow2(REFERENCE_KEY as nat)
}

/// Every table entry is the scaled pitch of its key, rounded to the nearest
/// integer.
pub proof fn lemma_exp_frac_is_rounded_pitch(semitone: int)
    requires
        0 <= semitone < 12,
    ensures
        nearest_to_scaled_pitch(exp_frac(semitone), semitone),
{
    lemma2_to64();
    lemma_pow2_adds(64, 5);
    assert(pow2(69) == 0x20_0000_0000_0000_0000);
    if semitone == 0 {
        assert(nearest_to_scaled_pitch(4186, 0)) by (nonlinear_arith)
            requires
                pow2(0) == 1,
                pow2(69) == 0x20_0000_0000_0000_0000,
        ;
    } else if semitone == 1 {
        assert(nearest_to_scaled_pitch(4435, 1)) by (nonlinear_arith)
            requires
                pow2(1) == 2,
                pow2(69) == 0x20_0000_0000_0000_0000,
        ;
    } else if semitone == 2 {
        assert(nearest_to_scaled_pitch(4699, 2)) by (nonlinear_arith)
            requires
                pow2(2) == 4,
                pow2(69) == 0x20_0000_0000_0000_0000,
        ;
    } else if semitone == 3 {
        assert(nearest_to_scaled_pitch(4978, 3)) by (nonlinear_arith)
            requires
                pow2(3) == 8,
                pow2(69) == 0x20_0000_0000_0000_0000,
        ;
    } else if semitone == 4 {
        assert(nearest_to_scaled_pitch(5274, 4)) by (nonlinear_arith)
            requires
                pow2(4) == 16,
                pow2(69) == 0x20_0000_0000_0000_0000,
        ;
    } else if semitone == 5 {
        assert(nearest_to_scaled_pitch(5588, 5)) by (nonlinear_arith)
            requires
                pow2(5) == 32,
                pow2(69) == 0x20_0000_0000_0000_0000,
        ;
    } else if semitone == 6 {
        assert(nearest_to_scaled_pitch(5920, 6)) by (nonlinear_arith)
            requires
                pow2(6) == 64,
                pow2(69) == 0x20_0000_0000_0000_0000,
        ;
    } else if semitone == 7 {
        assert(nearest_to_scaled_pitch(6272, 7)) by (nonlinear_arith)
            requires
                pow2(7) == 128,
                pow2(69) == 0x20_0000_0000_0000_0000,
        ;
    } else if semitone == 8 {
        assert(nearest_to_scaled_pitch(6645, 8)) by (nonlinear_arith)
            requires
                pow2(8) == 256,
                pow2(69) == 0x20_0000_0000_0000_0000,
        ;
    } else if semitone == 9 {
        assert(nearest_to_scaled_pitch(7040, 9)) by (nonlinear_arith)
            requires
                pow2(9) == 512,
                pow2(69) == 0x20_0000_0000_0000_0000,
        ;
    } else if semitone == 10 {
        assert(nearest_to_scaled_pitch(7459, 10)) by (nonlinear_arith)
            requires
                pow2(10) == 1024,
                pow2(69) == 0x20_0000_0000_0000_0000,
        ;
    } else {
        assert(nearest_to_scaled_pitch(7902, 11)) by (nonlinear_arith)
            requires
                pow2(11) == 2048,
                pow2(69) == 0x20_0000_0000_0000_0000,
        ;
    }
}

/// The table rises with the semitone and stays below twice its first entry:
/// it covers one octave.
pub proof fn lemma_exp_frac_increasing(lower: int, higher: int)
    requires
        0 <= lower < higher < 12,
    ensures
        exp_frac(lower) < exp_frac(higher) < 2 * exp_frac(0),
{
}

} // verus!
