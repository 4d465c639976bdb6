//! The conversion from a MIDI key to a timer period, and its model.

use vstd::prelude::*;
use vstd::arithmetic::power2::pow2;
use vstd::arithmetic::power2::lemma2_to64;
use vstd::arithmetic::power2::lemma_pow2_pos;
use vstd::arithmetic::power2::lemma_pow2_unfold;
use vstd::bits::lemma_u32_shl_is_mul;
use crate::exp_frac::EXP_FRAC;
use crate::exp_frac::EXP_FRAC_SCALE;
use crate::exp_frac::exp_frac;
use crate::accuracy::lemma_pitch_within_five_cents;
use crate::accuracy::within_five_cents;
use crate::accuracy::ACCURATE_PERIOD;
use crate::rounding::lemma_rounded_div_is_nearest;
use crate::rounding::rounded_div;

verus! {

/// The highest MIDI key.
pub const MAX_KEY: u16 = 127;

/// The highest timer frequency, in ticks per second, that
/// [`midi_key_period`] accepts together with every key up to [`MAX_KEY`].
pub const MAX_TIMER_FREQUENCY: u32 = 4_188_031;

/// The frequency of a key in hertz, in the fixed point of the table: the
/// table entry of the key's semitone, doubled once for each octave.
pub open spec fn key_denominator(key: int) -> int
    recommends
        key >= 0,
{
    pow2((key / 12) as nat) * exp_frac(key % 12)
}

/// The timer frequency in the fixed point of the table.
pub open spec fn key_numerator(timer_frequency: int) -> int {
    timer_frequency * EXP_FRAC_SCALE
}

/// The period of a key: timer ticks per cycle of the key's pitch, rounded to
/// the nearest integer.
pub open spec fn key_period(timer_frequency: int, key: int) -> int
    recommends
        key >= 0,
{
    rounded_div(key_numerator(timer_frequency), key_denominator(key))
}

/// Whether the rounded division for this timer frequency and key can be
/// carried out in 32 bits.
pub open spec fn period_fits(timer_frequency: int, key: int) -> bool
    recommends
        key >= 0,
{
    2 * key_numerator(timer_frequency) + key_denominator(key) <= u32::MAX
}

/// Whether [`midi_key_period`] accepts this timer frequency and key.
pub open spec fn valid_input(timer_frequency: int, key: int) -> bool {
    &&& 0 <= timer_frequency
    &&& 0 <= key <= MAX_KEY
    &&& period_fits(timer_frequency, key)
}

/// The denominator of a key up to [`MAX_KEY`] is at most 2^10 times the
/// largest table entry that such a key reaches in the top octave.
pub proof fn lemma_key_denominator_bounds(key: int)
    requires
        0 <= key <= MAX_KEY,
    ensures
        4186 <= key_denominator(key) <= 6_422_528,
{
    lemma2_to64();
    let octave = key / 12;
    let semitone = key % 12;
    assert(0 <= octave <= 10);
    assert(octave == 10 ==> semitone <= 7);
    let factor = pow2(octave as nat) as int;
    let entry = exp_frac(semitone);
    assert(1 <= factor <= 1024);
    assert(4186 <= entry <= 7902);
    assert(4186 <= factor * entry <= 6_422_528) by (nonlinear_arith)
        requires
            1 <= factor <= 1024,
            4186 <= entry <= 7902,
            factor == 1024 ==> entry <= 6272,
            factor <= 512 || factor == 1024,
    ;
}

/// The denominator of a key is positive.
pub proof fn lemma_key_denominator_positive(key: int)
    requires
        key >= 0,
    ensures
        key_denominator(key) >= 4186,
{
    let factor = pow2((key / 12) as nat) as int;
    let entry = exp_frac(key % 12);
    lemma_pow2_pos((key / 12) as nat);
    assert(factor * entry >= 4186) by (nonlinear_arith)
        requires
            factor >= 1,
            entry >= 4186,
    ;
}

/// The denominator rises with the key: a higher key has no lower frequency.
pub proof fn lemma_key_denominator_rises(lower_key: int, higher_key: int)
    requires
        0 <= lower_key <= higher_key,
    ensures
        key_denominator(lower_key) <= key_denominator(higher_key),
    decreases higher_key - lower_key,
{
    if lower_key < higher_key {
        let below = higher_key - 1;
        lemma_key_denominator_rises(lower_key, below);
        let factor = pow2((below / 12) as nat) as int;
        lemma_pow2_pos((below / 12) as nat);
        if below % 12 == 11 {
            assert(higher_key / 12 == below / 12 + 1);
            assert(higher_key % 12 == 0);
            lemma_pow2_unfold((higher_key / 12) as nat);
            assert(pow2((higher_key / 12) as nat) == 2 * factor);
            assert(factor * 7902 <= (2 * factor) * 4186) by (nonlinear_arith)
                requires
                    factor >= 1,
            ;
        } else {
            assert(higher_key / 12 == below / 12);
            assert(higher_key % 12 == below % 12 + 1);
            let entry = exp_frac(below % 12);
            let next = exp_frac(higher_key % 12);
            assert(factor * entry <= factor * next) by (nonlinear_arith)
                requires
                    factor >= 1,
                    entry <= next,
            ;
        }
    }
}

/// Computes [`key_denominator`] for a key up to [`MAX_KEY`].
fn denominator_for_key(key: u16) -> (denominator: u32)
    requires
        key <= MAX_KEY,
    ensures
        denominator == key_denominator(key as int),
{
    let octave: u32 = (key / 12) as u32;
    let semitone: usize = (key % 12) as usize;
    proof {
        lemma2_to64();
        lemma_key_denominator_bounds(key as int);
        lemma_u32_shl_is_mul(1u32, octave);
    }
    let octave_factor: u32 = 1u32 << octave;
    octave_factor * EXP_FRAC[semitone]
}

/// Tells whether [`midi_key_period`] accepts `timer_frequency` and `key`:
/// whether the key is a MIDI key and the computation stays within 32 bits.
pub fn is_valid_input(timer_frequency: u32, key: u16) -> (valid: bool)
    ensures
        valid == valid_input(timer_frequency as int, key as int),
{
    if key > MAX_KEY {
        return false;
    }
    let denominator: u32 = denominator_for_key(key);
    proof {
        lemma_key_denominator_bounds(key as int);
    }
    timer_frequency <= (u32::MAX - denominator) / (2 * EXP_FRAC_SCALE)
}

/// Converts a MIDI `key` into the period, in timer ticks, of the key's pitch
/// in equal temperament with key 69 at 440 Hz, for a timer that counts
/// `timer_frequency` ticks per second.
///
/// The period is `timer_frequency` divided by the key's frequency, rounded to
/// the nearest integer. The key's frequency is taken from the table, so it is
/// exact to one part in eight thousand. A period of at least
/// [`ACCURATE_PERIOD`] ticks sounds within five cents of the key's pitch;
/// shorter periods are too coarse for the rounding to promise that.
///
/// A key above [`MAX_KEY`], and a timer frequency for which the computation
/// leaves 32 bits, are outside the function's domain. Every timer frequency
/// up to [`MAX_TIMER_FREQUENCY`] is inside it for every key;
/// [`is_valid_input`] decides the domain at run time.
pub fn midi_key_period(timer_frequency: u32, key: u16) -> (period: u32)
    requires
        valid_input(timer_frequency as int, key as int),
    ensures
        period == key_period(timer_frequency as int, key as int),
        (2 * period - 1) * key_denominator(key as int) <= 2 * key_numerator(timer_frequency as int),
        2 * key_numerator(timer_frequency as int) < (2 * period + 1) * key_denominator(key as int),
        period >= ACCURATE_PERIOD ==> within_five_cents(
            timer_frequency as int,
            period as int,
            key as int,
        ),
{
    proof {
        lemma_key_denominator_bounds(key as int);
        if key_period(timer_frequency as int, key as int) >= ACCURATE_PERIOD {
            lemma_pitch_within_five_cents(timer_frequency, key);
        }
        lemma_rounded_div_is_nearest(
            key_numerator(timer_frequency as int),
            key_denominator(key as int),
            key_period(timer_frequency as int, key as int),
        );
    }
    let num: u32 = timer_frequency * EXP_FRAC_SCALE;
    let den: u32 = denominator_for_key(key);
    (2 * num + den) / (2 * den)
}

} // verus!
