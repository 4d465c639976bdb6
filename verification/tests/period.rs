use midi_period::exp_frac::EXP_FRAC;
use midi_period::exp_frac::EXP_FRAC_SCALE;
use midi_period::is_valid_input;
use midi_period::midi_key_period;
use midi_period::ACCURATE_PERIOD;
use midi_period::ACCURATE_TIMER_FREQUENCY;
use midi_period::MAX_KEY;
use midi_period::MAX_TIMER_FREQUENCY;

#[test]
fn test_period() {
    for key in 12..=127 {
        let cents = 5.0;
        let upper = 440.0 * f64::powf(2.0, (key as f64 - 69.0 + cents / 100.0) / 12.0);
        let lower = 440.0 * f64::powf(2.0, (key as f64 - 69.0 - cents / 100.0) / 12.0);
        let tf = 2_000_000;
        let p = midi_key_period(tf, key);
        let f = tf as f64 / p as f64;
        assert!(f < upper && f > lower, "{key} {lower} {f} {upper}");
    }
}

#[test]
fn reference_key_at_one_megahertz() {
    let p = midi_key_period(1_000_000, 69);
    assert_eq!(p, 2273);
    assert_eq!(p, (1_000_000 * 2 + 440) / 880);
    assert_eq!(p, (1_000_000 + 220) / 440);
}

#[test]
fn lowest_and_highest_key_are_accepted() {
    assert!(is_valid_input(1_000_000, 0));
    assert!(is_valid_input(1_000_000, 127));
    assert_eq!(midi_key_period(1_000_000, 0), 122_312);
    assert_eq!(midi_key_period(1_000_000, 127), 80);
}

#[test]
fn key_above_the_highest_is_rejected() {
    assert_eq!(MAX_KEY, 127);
    assert!(!is_valid_input(1_000_000, 128));
    assert!(!is_valid_input(0, 128));
    assert!(!is_valid_input(1_000_000, 140));
    assert!(!is_valid_input(1_000_000, u16::MAX));
}

#[test]
fn product_beyond_32_bits_is_rejected() {
    // 8_388_608 * 512 is 2^32.
    assert!(!is_valid_input(8_388_608, 69));
    assert!(!is_valid_input(u32::MAX, 0));
    assert!(!is_valid_input(u32::MAX, 127));
    // The product fits, the doubled product does not.
    assert!(!is_valid_input(4_194_304, 0));
}

#[test]
fn ceiling_is_accepted_with_every_key() {
    assert_eq!(MAX_TIMER_FREQUENCY, 4_188_031);
    for key in 0..=127u16 {
        assert!(is_valid_input(MAX_TIMER_FREQUENCY, key), "{key}");
        assert!(is_valid_input(4_000_000, key), "{key}");
    }
    assert!(!is_valid_input(MAX_TIMER_FREQUENCY + 1, 127));
}

#[test]
fn domain_ends_where_the_sum_leaves_32_bits() {
    // Key 0: 1024 * tf + 4186 <= 4_294_967_295.
    assert!(is_valid_input(4_194_299, 0));
    assert!(!is_valid_input(4_194_300, 0));
    // Key 127: 1024 * tf + 1024 * 6272 <= 4_294_967_295.
    assert!(is_valid_input(4_188_031, 127));
    assert!(!is_valid_input(4_188_032, 127));
    assert_eq!(midi_key_period(4_194_299, 0), 513_015);
    assert_eq!(midi_key_period(4_188_031, 127), 334);
}

#[test]
fn period_agrees_with_wide_arithmetic() {
    for tf in [0u32, 1, 7, 440, 32_768, 1_000_000, 2_000_000, 4_000_000, 4_188_031] {
        for key in 0..=127u16 {
            let num = tf as u64 * EXP_FRAC_SCALE as u64;
            let den = (1u64 << (key / 12)) * EXP_FRAC[(key % 12) as usize] as u64;
            let expected = (2 * num + den) / (2 * den);
            assert_eq!(midi_key_period(tf, key) as u64, expected, "{tf} {key}");
        }
    }
}

#[test]
fn period_is_within_half_a_tick() {
    for tf in [1_000_000u32, 2_000_000, 4_188_031] {
        for key in 0..=127u16 {
            let p = midi_key_period(tf, key) as i64;
            let num = tf as i64 * 512;
            let den = (1i64 << (key / 12)) * EXP_FRAC[(key % 12) as usize] as i64;
            assert!((2 * p - 1) * den <= 2 * num, "{tf} {key}");
            assert!(2 * num < (2 * p + 1) * den, "{tf} {key}");
        }
    }
}

#[test]
fn division_rounds_to_nearest() {
    // 1_000_000 / 440 is 2272.73: truncation would give 2272.
    assert_eq!(midi_key_period(1_000_000, 69), 2273);
    // 440 ticks per second at 440 Hz: one tick per cycle.
    assert_eq!(midi_key_period(440, 69), 1);
    // 660 / 440 is exactly one and a half: halves go up.
    assert_eq!(midi_key_period(660, 69), 2);
    assert_eq!(midi_key_period(659, 69), 1);
    // Below half a tick the period is zero.
    assert_eq!(midi_key_period(219, 69), 0);
    assert_eq!(midi_key_period(220, 69), 1);
    assert_eq!(midi_key_period(0, 0), 0);
}

#[test]
fn period_falls_as_key_rises() {
    for tf in [1u32, 1_000, 1_000_000, 2_000_000, 4_188_031] {
        let mut previous = midi_key_period(tf, 0);
        for key in 1..=127u16 {
            let p = midi_key_period(tf, key);
            assert!(p <= previous, "{tf} {key}");
            previous = p;
        }
    }
}

#[test]
fn octave_halves_the_period() {
    assert_eq!(midi_key_period(1_000_000, 57), 4545);
    assert_eq!(midi_key_period(1_000_000, 69), 2273);
    assert_eq!(midi_key_period(1_000_000, 81), 1136);
    assert_eq!(midi_key_period(2_000_000, 69), 4545);
    assert_eq!(midi_key_period(4_000_000, 69), 9091);
    // Middle C, 261.63 Hz.
    assert_eq!(midi_key_period(1_000_000, 60), 3822);
}

#[test]
fn repeated_calls_agree() {
    for key in 0..=127u16 {
        let first = midi_key_period(2_000_000, key);
        let second = midi_key_period(2_000_000, key);
        assert_eq!(first, second);
        assert_eq!(is_valid_input(2_000_000, key), is_valid_input(2_000_000, key));
    }
}

#[test]
fn table_holds_the_scaled_pitches() {
    assert_eq!(EXP_FRAC_SCALE, 512);
    assert_eq!(EXP_FRAC.len(), 12);
    assert_eq!(
        EXP_FRAC,
        [4186, 4435, 4699, 4978, 5274, 5588, 5920, 6272, 6645, 7040, 7459, 7902]
    );
    for semitone in 0..12 {
        let pitch = 440.0 * f64::powf(2.0, (semitone as f64 - 69.0) / 12.0) * 512.0;
        assert_eq!(EXP_FRAC[semitone], pitch.round() as u32);
    }
    for semitone in 1..12 {
        assert!(EXP_FRAC[semitone - 1] <= EXP_FRAC[semitone]);
    }
    assert!(EXP_FRAC[11] < 2 * EXP_FRAC[0]);
    // Key 69 is in the table at sixteen times 440 Hz, less five octaves.
    assert_eq!(EXP_FRAC[9], 440 * 512 / 32);
}

#[test]
fn accurate_timer_gives_every_key_a_long_period() {
    assert_eq!(ACCURATE_PERIOD, 182);
    assert_eq!(ACCURATE_TIMER_FREQUENCY, 2_276_736);
    for tf in [ACCURATE_TIMER_FREQUENCY, 3_000_000, MAX_TIMER_FREQUENCY] {
        for key in 0..=127u16 {
            assert!(is_valid_input(tf, key));
            assert!(midi_key_period(tf, key) >= ACCURATE_PERIOD, "{tf} {key}");
        }
    }
    assert_eq!(midi_key_period(ACCURATE_TIMER_FREQUENCY, 127), 182);
    assert_eq!(midi_key_period(ACCURATE_TIMER_FREQUENCY - 1, 127), 181);
}

#[test]
fn long_periods_are_within_five_cents() {
    let up = f64::powf(2.0, 1.0 / 240.0);
    let mut seen = 0;
    for tf in [40_000u32, 1_000_000, 2_000_000, ACCURATE_TIMER_FREQUENCY, MAX_TIMER_FREQUENCY] {
        for key in 0..=127u16 {
            let p = midi_key_period(tf, key);
            if p >= ACCURATE_PERIOD {
                let pitch = 440.0 * f64::powf(2.0, (key as f64 - 69.0) / 12.0);
                let ratio = tf as f64 / p as f64 / pitch;
                assert!(ratio < up && ratio * up > 1.0, "{tf} {key} {ratio}");
                assert!(ratio < 348.0 / 347.0 && ratio > 346.0 / 347.0, "{tf} {key} {ratio}");
                seen += 1;
            }
        }
    }
    assert!(seen > 400);
}

#[test]
fn short_period_can_miss_five_cents() {
    // 100 kHz, key 127 at 12543.85 Hz: 7.97 ticks round to 8, which is 12500 Hz.
    let p = midi_key_period(100_000, 127);
    assert_eq!(p, 8);
    let pitch = 440.0 * f64::powf(2.0, (127.0 - 69.0) / 12.0);
    let ratio = 100_000.0 / p as f64 / pitch;
    assert!(ratio * f64::powf(2.0, 1.0 / 240.0) < 1.0);
}
