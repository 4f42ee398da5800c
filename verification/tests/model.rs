use rosedale::fixed::{clamp_unit, soft_clip, UNIT};
use rosedale::model::{
    apply_chassis_filter, calc_dt, filter_alpha, pitch_sag, synthesize_pulse_wave,
    update_aperture, update_pressure, APERTURE_EPS,
};
use rosedale::params::Params;
use rosedale::voice::{note_freq, VoiceState};

fn to_f64(x: i64) -> f64 {
    x as f64 / 4294967296.0
}

#[test]
fn key_69_is_exactly_440_hz() {
    let f = note_freq(69);
    assert_eq!(f, 440 * UNIT);
    assert_eq!(to_f64(f), 440.0);
}

#[test]
fn key_57_is_exactly_one_octave_down() {
    let f = note_freq(57);
    assert_eq!(f, 220 * UNIT);
    assert_eq!(to_f64(f), 220.0);
    assert_eq!(note_freq(81), 880 * UNIT);
}

#[test]
fn pitch_table_is_increasing_and_positive() {
    let mut prev: i64 = 0;
    for key in 0..128u8 {
        let f = note_freq(key);
        assert!(f > prev);
        prev = f;
    }
}

#[test]
fn voice_starts_silent_with_table_pitch() {
    let v = VoiceState::new(69);
    assert_eq!(v.phase, 0);
    assert_eq!(v.sample_history, 0);
    assert_eq!(v.valve_aperture, 0);
    assert!(!v.opening);
    assert_eq!(v.attack, 0);
    assert_eq!(v.freq, 440 * UNIT);
}

#[test]
fn sample_interval_at_48k() {
    assert_eq!(calc_dt(48000), 89478);
    assert_eq!(calc_dt(16000), 268435);
}

#[test]
fn filter_coefficient_at_48k() {
    let dt = calc_dt(48000);
    let alpha = filter_alpha(Params::default().filter_cutoff, dt);
    assert_eq!(alpha, 704903545);
    let float_alpha = to_f64(alpha);
    let w = 2.0 * std::f64::consts::PI * 1500.0 / 48000.0;
    assert!((float_alpha - w / (1.0 + w)).abs() < 1e-6);
}

#[test]
fn pulse_is_two_level_only() {
    let duty = Params::default().pulse_duty_cycle;
    let mut phase: i64 = 0;
    while phase <= 2 * UNIT {
        let s = synthesize_pulse_wave(phase, duty);
        assert!(s == UNIT || s == -UNIT);
        phase += UNIT / 64;
    }
    // +1 while the phase is at or below the duty cycle.
    assert_eq!(synthesize_pulse_wave(0, duty), UNIT);
    assert_eq!(synthesize_pulse_wave(duty, duty), UNIT);
    assert_eq!(synthesize_pulse_wave(duty + 1, duty), -UNIT);
}

#[test]
fn aperture_stays_clamped_under_pathological_dt() {
    let p = Params::default();
    // A full second per sample, instantly opening valve.
    let a = update_aperture(0, true, UNIT, 0, p.spring_speed, UNIT);
    assert_eq!(a, UNIT);
    // Closing from fully open with a huge step.
    let a = update_aperture(UNIT, false, 0, 0, p.spring_speed, UNIT);
    assert_eq!(a, 0);
    // Closing under pressure is slower than without it.
    let dt = calc_dt(48000);
    let slow = update_aperture(UNIT, false, 0, UNIT, p.spring_speed, dt);
    let fast = update_aperture(UNIT, false, 0, 0, p.spring_speed, dt);
    assert!(slow > fast);
    assert!(0 <= fast && slow <= UNIT);
    // Higher attack opens faster.
    let soft = update_aperture(0, true, 0, 0, p.spring_speed, dt);
    let hard = update_aperture(0, true, UNIT, 0, p.spring_speed, dt);
    assert!(hard > soft);
    assert!(soft > 0 && hard <= UNIT);
}

#[test]
fn pressure_refills_toward_target_and_stays_in_band() {
    let p = Params::default();
    let dt = calc_dt(48000);
    let mut pressure: i64 = 0;
    let mut prev: i64 = -1;
    for _ in 0..48000 {
        pressure = update_pressure(pressure, &p, 0, dt);
        assert!(pressure >= prev);
        assert!(0 <= pressure && pressure <= p.max_pressure);
        prev = pressure;
    }
    // After a second the plenum is essentially at the target.
    assert!(to_f64(pressure) > 0.99);
}

#[test]
fn first_pressure_step_from_empty_plenum() {
    let p = Params::default();
    // refill * (target - 0) = 10.0, times dt = 89478/2^32: exactly
    // 10 * 89478 raw units.
    assert_eq!(update_pressure(0, &p, 0, calc_dt(48000)), 894780);
}

#[test]
fn pitch_sags_with_the_pressure_deficit() {
    let p = Params::default();
    let a4 = 440 * UNIT;
    // At full pressure there is no deficit and no sag.
    assert_eq!(pitch_sag(p.max_pressure, &p, a4), a4);
    // At zero pressure the sag factor is exactly 1 - 0.06.
    let sagged = pitch_sag(0, &p, a4);
    assert_eq!(sagged, 440 * (UNIT - 257698038));
    assert!(sagged < a4);
}

#[test]
fn open_valves_drain_the_plenum() {
    let p = Params::default();
    let dt = calc_dt(48000);
    let mut quiet: i64 = 0;
    let mut drained: i64 = 0;
    for _ in 0..48000 {
        quiet = update_pressure(quiet, &p, 0, dt);
        drained = update_pressure(drained, &p, 8 * UNIT, dt);
    }
    assert!(drained < quiet);
    assert!(drained > 0);
}

#[test]
fn filter_first_step_from_rest_is_alpha() {
    let dt = calc_dt(48000);
    let alpha = filter_alpha(Params::default().filter_cutoff, dt);
    // history 0, input +1: next = alpha exactly.
    assert_eq!(apply_chassis_filter(0, alpha, UNIT), alpha);
    assert_eq!(apply_chassis_filter(0, alpha, -UNIT), -alpha);
    // A unit coefficient tracks the input exactly.
    assert_eq!(apply_chassis_filter(UNIT, UNIT, -UNIT), -UNIT);
}

#[test]
fn soft_clip_is_strictly_inside_the_rails() {
    assert_eq!(soft_clip(0), 0);
    // A sub-resolution input truncates to zero.
    assert_eq!(soft_clip(1), 0);
    for &x in &[UNIT / 2, UNIT, 10 * UNIT, 128 * UNIT, i64::MAX / 2] {
        let r = soft_clip(x);
        assert!(r > 0 && r < UNIT);
        let rn = soft_clip(-x);
        assert_eq!(rn, -r);
        assert!(rn > -UNIT);
    }
    // Half amplitude clips to one third: 0.5 / 1.5.
    assert_eq!(soft_clip(UNIT / 2), UNIT / 3);
}

#[test]
fn clamp_unit_bounds() {
    assert_eq!(clamp_unit(-5), 0);
    assert_eq!(clamp_unit(UNIT + 5), UNIT);
    assert_eq!(clamp_unit(123456), 123456);
}

#[test]
fn aperture_threshold_is_one_ten_thousandth() {
    assert!((to_f64(APERTURE_EPS) - 0.0001).abs() < 1e-7);
}
