//! What holds of the period of every key and every timer frequency.

use vstd::prelude::*;
use vstd::arithmetic::power2::lemma2_to64;
use crate::exp_frac::EXP_FRAC_SCALE;
use crate::period::MAX_KEY;
use crate::period::MAX_TIMER_FREQUENCY;
use crate::period::key_denominator;
use crate::period::key_numerator;
use crate::period::key_period;
use crate::period::lemma_key_denominator_bounds;
use crate::period::lemma_key_denominator_positive;
use crate::period::lemma_key_denominator_rises;
use crate::period::valid_input;
use crate::rounding::lemma_rounded_div_falls_with_denominator;
use crate::rounding::lemma_rounded_div_is_nearest;

verus! {

/// The period that [`crate::midi_key_period`] returns is the number of timer
/// ticks nearest to the exact length of one cycle: it differs from
/// `numerator / denominator` by at most half a tick.
pub proof fn lemma_period_is_nearest(timer_frequency: u32, key: u16)
    ensures
        ({
            let period = key_period(timer_frequency as int, key as int);
            let numerator = key_numerator(timer_frequency as int);
            let denominator = key_denominator(key as int);
            &&& (2 * period - 1) * denominator <= 2 * numerator
            &&& 2 * numerator < (2 * period + 1) * denominator
        }),
{
    lemma_key_denominator_positive(key as int);
    lemma_rounded_div_is_nearest(
        key_numerator(timer_frequency as int),
        key_denominator(key as int),
        key_period(timer_frequency as int, key as int),
    );
}

/// For one timer frequency, a higher key has no longer period.
pub proof fn lemma_period_falls_with_key(timer_frequency: u32, lower_key: u16, higher_key: u16)
    requires
        lower_key <= higher_key,
    ensures
        key_period(timer_frequency as int, higher_key as int) <= key_period(
            timer_frequency as int,
            lower_key as int,
        ),
{
    lemma_key_denominator_positive(lower_key as int);
    lemma_key_denominator_rises(lower_key as int, higher_key as int);
    lemma_rounded_div_falls_with_denominator(
        key_numerator(timer_frequency as int),
        key_denominator(lower_key as int),
        key_denominator(higher_key as int),
    );
}

/// Every timer frequency up to [`MAX_TIMER_FREQUENCY`] is accepted with every
/// MIDI key.
pub proof fn lemma_max_timer_frequency_is_safe(timer_frequency: u32, key: u16)
    requires
        timer_frequency <= MAX_TIMER_FREQUENCY,
        key <= MAX_KEY,
    ensures
        valid_input(timer_frequency as int, key as int),
{
    lemma_key_denominator_bounds(key as int);
}

/// No timer frequency above [`MAX_TIMER_FREQUENCY`] is accepted with the
/// highest key.
pub proof fn lemma_above_max_timer_frequency_is_rejected(timer_frequency: u32)
    requires
        timer_frequency > MAX_TIMER_FREQUENCY,
    ensures
        !valid_input(timer_frequency as int, MAX_KEY as int),
{
    lemma2_to64();
    assert(key_denominator(MAX_KEY as int) == 1024 * 6272);
}

/// A key above [`MAX_KEY`] is never accepted, and neither is a timer
/// frequency whose product with the scale leaves 32 bits.
pub proof fn lemma_out_of_range_is_rejected(timer_frequency: u32, key: u16)
    requires
        key > MAX_KEY || timer_frequency * EXP_FRAC_SCALE > u32::MAX,
    ensures
        !valid_input(timer_frequency as int, key as int),
{
    lemma_key_denominator_positive(key as int);
}

/// The period depends on the timer frequency and the key alone: equal
/// arguments have equal periods.
pub proof fn lemma_period_is_a_function(
    timer_frequency: u32,
    key: u16,
    same_timer_frequency: u32,
    same_key: u16,
)
    requires
        timer_frequency == same_timer_frequency,
        key == same_key,
    ensures
        key_period(timer_frequency as int, key as int) == key_period(
            same_timer_frequency as int,
            same_key as int,
        ),
{
}

} // verus!
