//! How far the pitch of a computed period lies from equal temperament.
//!
//! The pitch of a key is `440 * 2^((key - 69) / 12)` hertz, which is
//! irrational for most keys. Comparisons with it are written in twelfth
//! powers, where both sides are integers.

use vstd::prelude::*;
use vstd::arithmetic::power::pow;
use vstd::arithmetic::power::lemma0_pow;
use vstd::arithmetic::power::lemma_pow1;
use vstd::arithmetic::power::lemma_pow_adds;
use vstd::arithmetic::power::lemma_pow_distributes;
use vstd::arithmetic::power::lemma_pow_multiplies;
use vstd::arithmetic::power::lemma_pow_positive;
use vstd::arithmetic::power2::lemma2_to64;
use vstd::arithmetic::power2::lemma_pow2;
use vstd::arithmetic::power2::pow2;
use vstd::arithmetic::power2::lemma_pow2_adds;
use vstd::arithmetic::power2::lemma_pow2_pos;
use crate::exp_frac::exp_frac;
use crate::exp_frac::lemma_exp_frac_is_rounded_pitch;
use crate::exp_frac::twelfth_power;
use crate::exp_frac::EXP_FRAC_SCALE;
use crate::exp_frac::REFERENCE_KEY;
use crate::exp_frac::REFERENCE_PITCH;
use crate::period::key_denominator;
use crate::period::key_numerator;
use crate::period::key_period;
use crate::period::lemma_key_denominator_positive;
use crate::period::MAX_KEY;
use crate::laws::lemma_period_falls_with_key;
use crate::rounding::lemma_rounded_div_is_nearest;

verus! {

/// A period of at least this many timer ticks sounds within five cents of
/// its key's pitch, whatever the timer frequency.
pub const ACCURATE_PERIOD: u32 = 182;

/// The lowest timer frequency, in ticks per second, at which the highest
/// MIDI key, and so every MIDI key, has a period of at least
/// [`ACCURATE_PERIOD`] ticks.
pub const ACCURATE_TIMER_FREQUENCY: u32 = 2_276_736;

/// Whether a wave of `period` timer ticks is lower than `above / below` times
/// the pitch of `key`:
///
/// `timer_frequency / period < (above / below) * 440 * 2^((key - 69) / 12)`.
pub open spec fn pitch_ratio_below(
    timer_frequency: int,
    period: int,
    key: int,
    above: int,
    below: int,
) -> bool
    recommends
        timer_frequency >= 0,
        period > 0,
        key >= 0,
        above > 0,
        below > 0,
{
    twelfth_power(below * timer_frequency) * pow2(REFERENCE_KEY as nat) < twelfth_power(
        above * (REFERENCE_PITCH * period),
    ) * pow2(key as nat)
}

/// Whether a wave of `period` timer ticks is higher than `above / below`
/// times the pitch of `key`:
///
/// `timer_frequency / period > (above / below) * 440 * 2^((key - 69) / 12)`.
pub open spec fn pitch_ratio_above(
    timer_frequency: int,
    period: int,
    key: int,
    above: int,
    below: int,
) -> bool
    recommends
        timer_frequency >= 0,
        period > 0,
        key >= 0,
        above > 0,
        below > 0,
{
    twelfth_power(above * (REFERENCE_PITCH * period)) * pow2(key as nat) < twelfth_power(
        below * timer_frequency,
    ) * pow2(REFERENCE_KEY as nat)
}

/// The twelfth power keeps the order of integers that are not negative.
pub proof fn lemma_twelfth_power_rises(smaller: int, larger: int)
    requires
        0 <= smaller <= larger,
    ensures
        0 <= twelfth_power(smaller) <= twelfth_power(larger),
        smaller < larger ==> twelfth_power(smaller) < twelfth_power(larger),
{
    let s2 = smaller * smaller;
    let l2 = larger * larger;
    assert(0 <= s2 <= l2 && (smaller < larger ==> s2 < l2)) by (nonlinear_arith)
        requires
            0 <= smaller <= larger,
            s2 == smaller * smaller,
            l2 == larger * larger,
    ;
    let s4 = s2 * s2;
    let l4 = l2 * l2;
    assert(0 <= s4 <= l4 && (s2 < l2 ==> s4 < l4)) by (nonlinear_arith)
        requires
            0 <= s2 <= l2,
            s4 == s2 * s2,
            l4 == l2 * l2,
    ;
    let s8 = s4 * s4;
    let l8 = l4 * l4;
    assert(0 <= s8 <= l8 && (s4 < l4 ==> s8 < l8)) by (nonlinear_arith)
        requires
            0 <= s4 <= l4,
            s8 == s4 * s4,
            l8 == l4 * l4,
    ;
    assert(0 <= s8 * s4 <= l8 * l4 && (s4 < l4 ==> s8 * s4 < l8 * l4)) by (nonlinear_arith)
        requires
            0 <= s4 <= l4,
            0 <= s8 <= l8,
            s4 < l4 ==> s8 < l8,
    ;
}

/// The twelfth power of a product is the product of the twelfth powers.
pub proof fn lemma_twelfth_power_of_product(left: int, right: int)
    ensures
        twelfth_power(left * right) == twelfth_power(left) * twelfth_power(right),
{
    let p = left * right;
    let p2 = p * p;
    let l2 = left * left;
    let r2 = right * right;
    assert(p2 == l2 * r2) by (nonlinear_arith)
        requires
            p == left * right,
            p2 == p * p,
            l2 == left * left,
            r2 == right * right,
    ;
    let p4 = p2 * p2;
    let l4 = l2 * l2;
    let r4 = r2 * r2;
    assert(p4 == l4 * r4) by (nonlinear_arith)
        requires
            p2 == l2 * r2,
            p4 == p2 * p2,
            l4 == l2 * l2,
            r4 == r2 * r2,
    ;
    let p8 = p4 * p4;
    let l8 = l4 * l4;
    let r8 = r4 * r4;
    assert(p8 == l8 * r8) by (nonlinear_arith)
        requires
            p4 == l4 * r4,
            p8 == p4 * p4,
            l8 == l4 * l4,
            r8 == r4 * r4,
    ;
    assert(p8 * p4 == (l8 * l4) * (r8 * r4)) by (nonlinear_arith)
        requires
            p4 == l4 * r4,
            p8 == l8 * r8,
    ;
}

/// The twelfth power of 2^n is 2^(12 n).
pub proof fn lemma_twelfth_power_of_pow2(n: nat)
    ensures
        twelfth_power(pow2(n) as int) == pow2(12 * n),
{
    lemma_pow2_adds(n, n);
    lemma_pow2_adds(2 * n, 2 * n);
    lemma_pow2_adds(4 * n, 4 * n);
    lemma_pow2_adds(8 * n, 4 * n);
}

/// Carries a comparison of scaled twelfth powers over to other bases:
/// from `small^12 * g < large^12 * h`, with `lower * unit <= scale * small`
/// and `scale * large <= upper * unit`, to `lower^12 * g < upper^12 * h`.
proof fn lemma_twelfth_powers_rescaled(
    small: int,
    g: int,
    large: int,
    h: int,
    scale: int,
    unit: int,
    lower: int,
    upper: int,
)
    requires
        0 <= small,
        0 <= large,
        0 <= lower,
        0 <= upper,
        0 < g,
        0 < h,
        0 < scale,
        0 < unit,
        twelfth_power(small) * g < twelfth_power(large) * h,
        lower * unit <= scale * small,
        scale * large <= upper * unit,
    ensures
        twelfth_power(lower) * g < twelfth_power(upper) * h,
{
    assert(0 <= lower * unit && 0 <= scale * large) by (nonlinear_arith)
        requires
            0 <= lower,
            0 < unit,
            0 < scale,
            0 <= large,
    ;
    lemma_twelfth_power_rises(lower * unit, scale * small);
    lemma_twelfth_power_rises(scale * large, upper * unit);
    lemma_twelfth_power_rises(0, scale - 1);
    lemma_twelfth_power_rises(scale - 1, scale);
    lemma_twelfth_power_rises(0, unit - 1);
    lemma_twelfth_power_rises(unit - 1, unit);
    lemma_twelfth_power_of_product(lower, unit);
    lemma_twelfth_power_of_product(scale, small);
    lemma_twelfth_power_of_product(scale, large);
    lemma_twelfth_power_of_product(upper, unit);
    let a = twelfth_power(lower);
    let b = twelfth_power(upper);
    let c = twelfth_power(unit);
    let m = twelfth_power(scale);
    let x = twelfth_power(small);
    let y = twelfth_power(large);
    assert(a * g < b * h) by (nonlinear_arith)
        requires
            0 < g,
            0 < h,
            0 < c,
            0 < m,
            a * c <= m * x,
            m * y <= b * c,
            x * g < y * h,
    ;
}

/// A period of at least [`ACCURATE_PERIOD`] ticks sounds within a factor of
/// `346 / 347` to `348 / 347` of the pitch of its key, whatever the timer
/// frequency: half a tick of rounding in the period and half a unit of
/// rounding in the table together stay inside that band.
pub proof fn lemma_pitch_within_band(timer_frequency: u32, key: u16)
    requires
        key_period(timer_frequency as int, key as int) >= ACCURATE_PERIOD,
    ensures
        pitch_ratio_below(
            timer_frequency as int,
            key_period(timer_frequency as int, key as int),
            key as int,
            348,
            347,
        ),
        pitch_ratio_above(
            timer_frequency as int,
            key_period(timer_frequency as int, key as int),
            key as int,
            346,
            347,
        ),
{
    let tf = timer_frequency as int;
    let p = key_period(tf, key as int);
    let octave = (key / 12) as nat;
    let semitone = (key % 12) as nat;
    let w = pow2(octave) as int;
    let e = exp_frac(semitone as int);
    let g = pow2(REFERENCE_KEY as nat) as int;
    let h = pow2(key as nat) as int;
    let hs = pow2(semitone) as int;
    let t: int = 2 * REFERENCE_PITCH * EXP_FRAC_SCALE;
    lemma_key_denominator_positive(key as int);
    lemma_rounded_div_is_nearest(key_numerator(tf), key_denominator(key as int), p);
    lemma_exp_frac_is_rounded_pitch(semitone as int);
    lemma_pow2_pos(octave);
    lemma_pow2_pos(REFERENCE_KEY as nat);
    lemma_pow2_pos(key as nat);
    lemma_pow2_pos(semitone);
    lemma_pow2_adds(12 * octave, semitone);
    lemma_twelfth_power_of_pow2(octave);
    assert(twelfth_power(w) * hs == h);
    lemma_pow2_pos(12 * octave);
    assert(t == 450560);
    assert(p >= 182);
    assert(4186 <= e <= 7902);

    // The period, half a tick longer, against the entry, half a unit smaller:
    // 364 (2 p + 1) <= 730 p and 8371 e <= 4186 (2 e - 1), and 1024 * 364 * 8371
    // is 3120173056, 730 * 4186 is 3055780.
    let u = 3120173056 * tf;
    let round_up = 3055780 * p;
    let v = (round_up * w) * (2 * e - 1);
    assert(u < v) by (nonlinear_arith)
        requires
            2 * (tf * 512) < (2 * p + 1) * (w * e),
            p >= 182,
            e >= 4186,
            w >= 1,
            tf >= 0,
            u == 3120173056 * tf,
            v == ((3055780 * p) * w) * (2 * e - 1),
    ;
    lemma_twelfth_power_rises(u, v);
    lemma_twelfth_power_of_product(round_up * w, 2 * e - 1);
    lemma_twelfth_power_of_product(round_up, w);
    lemma_twelfth_power_of_product(round_up, t);
    lemma_twelfth_power_rises(0, round_up - 1);
    lemma_twelfth_power_rises(round_up - 1, round_up);
    let tu = twelfth_power(u);
    let tr = twelfth_power(round_up);
    let tw = twelfth_power(w);
    let te = twelfth_power(2 * e - 1);
    let tt = twelfth_power(t);
    assert(tu * g < (tr * tt) * h) by (nonlinear_arith)
        requires
            tu < (tr * tw) * te,
            te * g < tt * hs,
            tw * hs == h,
            tr > 0,
            tw > 0,
            g > 0,
    ;
    lemma_twelfth_powers_rescaled(
        u,
        g,
        round_up * t,
        h,
        347,
        3120173056int,
        347 * tf,
        348 * (REFERENCE_PITCH * p),
    );

    // The period, half a tick shorter, against the entry, half a unit larger:
    // 726 p <= 364 (2 p - 1) and 4186 (2 e + 1) <= 8373 e, and 1024 * 364 * 8373
    // is 3120918528, 726 * 4186 is 3039036.
    let u2 = 3120918528 * tf;
    let round_down = 3039036 * p;
    let v2 = (round_down * w) * (2 * e + 1);
    assert(v2 <= u2) by (nonlinear_arith)
        requires
            (2 * p - 1) * (w * e) <= 2 * (tf * 512),
            p >= 182,
            e >= 4186,
            w >= 1,
            tf >= 0,
            u2 == 3120918528 * tf,
            v2 == ((3039036 * p) * w) * (2 * e + 1),
    ;
    assert(0 <= v2) by (nonlinear_arith)
        requires
            p >= 182,
            e >= 4186,
            w >= 1,
            v2 == ((3039036 * p) * w) * (2 * e + 1),
    ;
    lemma_twelfth_power_rises(v2, u2);
    lemma_twelfth_power_of_product(round_down * w, 2 * e + 1);
    lemma_twelfth_power_of_product(round_down, w);
    lemma_twelfth_power_of_product(round_down, t);
    lemma_twelfth_power_rises(0, round_down - 1);
    lemma_twelfth_power_rises(round_down - 1, round_down);
    let tu2 = twelfth_power(u2);
    let tr2 = twelfth_power(round_down);
    let te2 = twelfth_power(2 * e + 1);
    assert((tr2 * tt) * h < tu2 * g) by (nonlinear_arith)
        requires
            (tr2 * tw) * te2 <= tu2,
            tt * hs < te2 * g,
            tw * hs == h,
            tr2 > 0,
            tw > 0,
            g > 0,
    ;
    lemma_twelfth_powers_rescaled(
        round_down * t,
        h,
        u2,
        g,
        347,
        3120918528int,
        346 * (REFERENCE_PITCH * p),
        347 * tf,
    );
}

/// The 240th power of `x`, by repeated squaring.
spec fn power_240(x: int) -> int {
    let x2 = x * x;
    let x4 = x2 * x2;
    let x8 = x4 * x4;
    let x15 = x8 * x4 * x2 * x;
    let x30 = x15 * x15;
    let x60 = x30 * x30;
    let x120 = x60 * x60;
    x120 * x120
}

/// Repeated squaring computes the 240th power.
proof fn lemma_power_240(x: int)
    ensures
        pow(x, 240) == power_240(x),
{
    lemma_pow1(x);
    lemma_pow_adds(x, 1, 1);
    lemma_pow_adds(x, 2, 2);
    lemma_pow_adds(x, 4, 4);
    lemma_pow_adds(x, 8, 4);
    lemma_pow_adds(x, 12, 2);
    lemma_pow_adds(x, 14, 1);
    lemma_pow_adds(x, 15, 15);
    lemma_pow_adds(x, 30, 30);
    lemma_pow_adds(x, 60, 60);
    lemma_pow_adds(x, 120, 120);
}

/// The band of [`lemma_pitch_within_band`] lies within five cents on either
/// side. Five cents are a 240th of an octave, so a ratio of frequencies is
/// less than five cents where its 240th power is less than 2.
pub proof fn lemma_band_is_within_five_cents()
    ensures
        pow(348, 240) < 2 * pow(347, 240),
        pow(347, 240) < 2 * pow(346, 240),
{
    lemma_power_240(346);
    lemma_power_240(347);
    lemma_power_240(348);
    assert(power_240(348) < 2 * power_240(347)) by (nonlinear_arith);
    assert(power_240(347) < 2 * power_240(346)) by (nonlinear_arith);
}

/// Whether a wave of `period` timer ticks lies within five cents of the
/// pitch of `key`, above or below:
///
/// `2^(-1/240) < (timer_frequency / period) / (440 * 2^((key - 69) / 12)) < 2^(1/240)`,
///
/// raised to the 240th power and cleared of fractions.
pub open spec fn within_five_cents(timer_frequency: int, period: int, key: int) -> bool
    recommends
        timer_frequency >= 0,
        period > 0,
        key >= 0,
{
    let wave = pow(timer_frequency, 240) * pow2(20 * REFERENCE_KEY as nat);
    let pitch = pow(REFERENCE_PITCH * period, 240) * pow2(20 * key as nat);
    &&& wave < 2 * pitch
    &&& pitch < 2 * wave
}

/// The twelfth power as a power of the arithmetic library.
proof fn lemma_twelfth_power_is_pow(x: int)
    ensures
        twelfth_power(x) == pow(x, 12),
{
    lemma_pow1(x);
    lemma_pow_adds(x, 1, 1);
    lemma_pow_adds(x, 2, 2);
    lemma_pow_adds(x, 4, 4);
    lemma_pow_adds(x, 8, 4);
}

/// A power with a positive exponent keeps the strict order of bases that are
/// not negative.
proof fn lemma_pow_rises_with_base(smaller: int, larger: int, e: nat)
    requires
        0 <= smaller < larger,
        e > 0,
    ensures
        0 <= pow(smaller, e) < pow(larger, e),
    decreases e,
{
    lemma_pow1(smaller);
    lemma_pow1(larger);
    if e > 1 {
        let rest = (e - 1) as nat;
        lemma_pow_rises_with_base(smaller, larger, rest);
        lemma_pow_adds(smaller, 1, rest);
        lemma_pow_adds(larger, 1, rest);
        let ps = pow(smaller, rest);
        let pl = pow(larger, rest);
        assert(0 <= smaller * ps < larger * pl) by (nonlinear_arith)
            requires
                0 <= smaller < larger,
                0 <= ps < pl,
        ;
    }
}

/// The 20th power of `base^12 * 2^shift` is `base^240 * 2^(20 shift)`.
proof fn lemma_twentieth_power(base: int, shift: nat)
    ensures
        pow(twelfth_power(base) * pow2(shift), 20) == pow(base, 240) * pow2(20 * shift),
{
    lemma_twelfth_power_is_pow(base);
    lemma_pow_distributes(pow(base, 12), pow2(shift) as int, 20);
    lemma_pow_multiplies(base, 12, 20);
    lemma_pow2(shift);
    lemma_pow2(20 * shift);
    lemma_pow_multiplies(2, shift, 20);
    assert(shift * 20 == 20 * shift);
}

/// A period of at least [`ACCURATE_PERIOD`] ticks sounds within five cents
/// of the pitch of its key, whatever the timer frequency.
pub proof fn lemma_pitch_within_five_cents(timer_frequency: u32, key: u16)
    requires
        key_period(timer_frequency as int, key as int) >= ACCURATE_PERIOD,
    ensures
        within_five_cents(
            timer_frequency as int,
            key_period(timer_frequency as int, key as int),
            key as int,
        ),
{
    let tf = timer_frequency as int;
    let p = key_period(tf, key as int);
    let cycle = REFERENCE_PITCH * p;
    lemma_pitch_within_band(timer_frequency, key);
    lemma_band_is_within_five_cents();
    lemma_pow2_pos(REFERENCE_KEY as nat);
    lemma_pow2_pos(key as nat);
    lemma_pow2_pos(20 * REFERENCE_KEY as nat);
    lemma_pow2_pos(20 * key as nat);
    let wave = pow(tf, 240) * pow2(20 * REFERENCE_KEY as nat);
    let pitch = pow(cycle, 240) * pow2(20 * key as nat);
    let c6 = pow(346, 240);
    let c7 = pow(347, 240);
    let c8 = pow(348, 240);
    lemma_pow_positive(346, 240);
    lemma_pow_positive(347, 240);
    assert(0 <= wave && 0 <= pitch) by {
        if tf > 0 {
            lemma_pow_positive(tf, 240);
        } else {
            lemma0_pow(240);
        }
        lemma_pow_positive(cycle, 240);
        let a = pow(tf, 240);
        let b = pow2(20 * REFERENCE_KEY as nat);
        let c = pow(cycle, 240);
        let d = pow2(20 * key as nat);
        assert(0 <= a * b && 0 <= c * d) by (nonlinear_arith)
            requires
                0 <= a,
                0 < b,
                0 < c,
                0 < d,
        ;
    }

    // Below the upper edge.
    let low = twelfth_power(347 * tf) * pow2(REFERENCE_KEY as nat);
    let high = twelfth_power(348 * cycle) * pow2(key as nat);
    lemma_twelfth_power_rises(0, 347 * tf);
    assert(0 <= low) by (nonlinear_arith)
        requires
            low == twelfth_power(347 * tf) * pow2(REFERENCE_KEY as nat),
            0 <= twelfth_power(347 * tf),
            0 < pow2(REFERENCE_KEY as nat),
    ;
    lemma_pow_rises_with_base(low, high, 20);
    lemma_twentieth_power(347 * tf, REFERENCE_KEY as nat);
    lemma_twentieth_power(348 * cycle, key as nat);
    lemma_pow_distributes(347, tf, 240);
    lemma_pow_distributes(348, cycle, 240);
    let wave_power = pow(tf, 240);
    let wave_shift = pow2(20 * REFERENCE_KEY as nat);
    let pitch_power = pow(cycle, 240);
    let pitch_shift = pow2(20 * key as nat);
    assert(wave < 2 * pitch) by (nonlinear_arith)
        requires
            (c7 * wave_power) * wave_shift < (c8 * pitch_power) * pitch_shift,
            c8 < 2 * c7,
            0 < c7,
            wave == wave_power * wave_shift,
            pitch == pitch_power * pitch_shift,
            0 <= pitch,
    ;

    // Above the lower edge.
    let low2 = twelfth_power(346 * cycle) * pow2(key as nat);
    let high2 = twelfth_power(347 * tf) * pow2(REFERENCE_KEY as nat);
    lemma_twelfth_power_rises(0, 346 * cycle);
    assert(0 <= low2) by (nonlinear_arith)
        requires
            low2 == twelfth_power(346 * cycle) * pow2(key as nat),
            0 <= twelfth_power(346 * cycle),
            0 < pow2(key as nat),
    ;
    lemma_pow_rises_with_base(low2, high2, 20);
    lemma_twentieth_power(346 * cycle, key as nat);
    lemma_pow_distributes(346, cycle, 240);
    assert(pitch < 2 * wave) by (nonlinear_arith)
        requires
            (c6 * pitch_power) * pitch_shift < (c7 * wave_power) * wave_shift,
            c7 < 2 * c6,
            0 < c6,
            wave == wave_power * wave_shift,
            pitch == pitch_power * pitch_shift,
            0 <= wave,
    ;
}

/// A timer of at least [`ACCURATE_TIMER_FREQUENCY`] ticks per second gives
/// every MIDI key a period of at least [`ACCURATE_PERIOD`] ticks, and so a
/// pitch within five cents of the key's.
pub proof fn lemma_every_key_within_five_cents(timer_frequency: u32, key: u16)
    requires
        timer_frequency >= ACCURATE_TIMER_FREQUENCY,
        key <= MAX_KEY,
    ensures
        key_period(timer_frequency as int, key as int) >= ACCURATE_PERIOD,
        within_five_cents(
            timer_frequency as int,
            key_period(timer_frequency as int, key as int),
            key as int,
        ),
{
    let tf = timer_frequency as int;
    let shortest = key_period(tf, MAX_KEY as int);
    let numerator = key_numerator(tf);
    let denominator = key_denominator(MAX_KEY as int);
    lemma2_to64();
    assert(denominator == 1024 * 6272);
    lemma_rounded_div_is_nearest(numerator, denominator, shortest);
    assert(shortest >= 182) by (nonlinear_arith)
        requires
            denominator == 6_422_528,
            2 * numerator >= 363 * denominator,
            2 * numerator < (2 * shortest + 1) * denominator,
    ;
    lemma_period_falls_with_key(timer_frequency, key, MAX_KEY);
    lemma_pitch_within_five_cents(timer_frequency, key);
}

/// Below [`ACCURATE_TIMER_FREQUENCY`] the period of the highest key is
/// shorter than [`ACCURATE_PERIOD`] ticks.
pub proof fn lemma_slower_timer_has_short_period(timer_frequency: u32)
    requires
        timer_frequency < ACCURATE_TIMER_FREQUENCY,
    ensures
        key_period(timer_frequency as int, MAX_KEY as int) < ACCURATE_PERIOD,
{
    let shortest = key_period(timer_frequency as int, MAX_KEY as int);
    let numerator = key_numerator(timer_frequency as int);
    let denominator = key_denominator(MAX_KEY as int);
    lemma2_to64();
    assert(denominator == 1024 * 6272);
    lemma_rounded_div_is_nearest(numerator, denominator, shortest);
    assert(shortest < 182) by (nonlinear_arith)
        requires
            denominator == 6_422_528,
            2 * numerator < 363 * denominator,
            (2 * shortest - 1) * denominator <= 2 * numerator,
    ;
}

} // verus!
