//! The physical model: sample interval, chassis filter coefficient, valve
//! aperture dynamics, plenum pressure dynamics, pitch sag, the two-level
//! pulse oscillator and the one-pole chassis filter.
//!
//! Every function is a pure map from Q32.32 scalars to a Q32.32 scalar,
//! exact with respect to its spec-level mirror, and the dynamics are proved
//! to keep their state variables inside the physical bands (aperture in
//! [0, 1], pressure in [0, target]).

use crate::fixed::{
    clamp_unit, clamp_unit_s, lemma_qdiv_bounds, lemma_qmul_mag,
    lemma_qmul_unit, mag, qdiv, qdiv_s, qmul, qmul_s, UNIT,
};
use crate::params::{params_ok, Params, PARAM_CAP};
use vstd::arithmetic::div_mod::{
    lemma_div_multiples_vanish_fancy, lemma_div_pos_is_pos, lemma_multiply_divide_lt,
};
use vstd::arithmetic::mul::{lemma_mul_nonnegative, lemma_mul_upper_bound};
use vstd::prelude::*;

verus! {

/// Slowest valve opening time constant (0.08), reached at attack 0.
pub const SLOW_OPEN: i64 = 343597384;

/// Fastest valve opening time constant (0.01), reached at attack 1.
pub const FAST_OPEN: i64 = 42949673;

/// Back-pressure coefficient (0.875) slowing the spring return.
pub const BACKPRESSURE: i64 = 3758096384;

/// Near-zero aperture threshold (0.0001) below which a voice is silent.
pub const APERTURE_EPS: i64 = 429497;

/// Two pi (6.2832...) in Q32.32.
pub const TWO_PI: i64 = 26986075409;

/// Lowest supported sample rate in Hz. Below this the explicit-Euler
/// pressure step would no longer be provably stable for a full 128-voice
/// outflow, and the highest key's phase increment would exceed one period.
pub const MIN_SAMPLE_RATE: u32 = 16000;

/// Largest sample interval: `UNIT / MIN_SAMPLE_RATE`.
pub const DT_CAP: i64 = 268435;

/// Sum of all 128 fully open apertures.
pub const TOTAL_APERTURE_CAP: i64 = 0x80_0000_0000;

/// The sample interval `1 / sample_rate` in Q32.32.
pub open spec fn calc_dt_s(sample_rate: int) -> int {
    (UNIT as int) / sample_rate
}

/// One-pole low-pass coefficient: `w*dt / (1 + w*dt)` with `w = 2*pi*cutoff`.
pub open spec fn filter_alpha_s(cutoff: int, dt: int) -> int {
    let wdt = qmul_s(qmul_s(TWO_PI as int, cutoff), dt);
    qdiv_s(wdt, (UNIT as int) + wdt)
}

/// Next valve aperture. An opening valve rises at
/// `1 / (SLOW_OPEN - attack * (SLOW_OPEN - FAST_OPEN))` per unit time; a
/// closing one falls at `spring / (1 + 0.875 * pressure)`. The result is
/// clamped into [0, 1].
pub open spec fn aperture_next_s(
    aperture: int,
    opening: bool,
    attack: int,
    pressure: int,
    spring_speed: int,
    dt: int,
) -> int {
    if opening {
        let speed = qdiv_s(
            UNIT as int,
            (SLOW_OPEN as int) - qmul_s(attack, (SLOW_OPEN - FAST_OPEN) as int),
        );
        clamp_unit_s(aperture + qmul_s(speed, dt))
    } else {
        let speed = qdiv_s(spring_speed, (UNIT as int) + qmul_s(BACKPRESSURE as int, pressure));
        clamp_unit_s(aperture - qmul_s(speed, dt))
    }
}

/// Next plenum pressure:
/// `p + dt * (refill * (target - p) - flow * total_aperture * p)`.
pub open spec fn pressure_next_s(pressure: int, prm: Params, total_aperture: int, dt: int) -> int {
    let air_in = qmul_s(prm.refill_speed as int, (prm.max_pressure as int) - pressure);
    let air_out = qmul_s(qmul_s(prm.valve_flow_rate as int, total_aperture), pressure);
    pressure + qmul_s(air_in - air_out, dt)
}

/// Pitch sag: `freq * (1 - depth * (target - p))`; a pressure deficit pulls
/// the pitch below nominal.
pub open spec fn pitch_sag_s(pressure: int, prm: Params, freq: int) -> int {
    qmul_s(freq, (UNIT as int) - qmul_s(prm.pitch_modulation_depth as int, (prm.max_pressure as int) - pressure))
}

/// Two-level pulse wave: +1 while the phase is at or below the duty cycle,
/// -1 otherwise.
pub open spec fn pulse_s(phase: int, duty: int) -> int {
    if phase <= duty {
        UNIT as int
    } else {
        -(UNIT as int)
    }
}

/// One-pole low-pass: `history + alpha * (input - history)`.
pub open spec fn filter_s(history: int, alpha: int, input: int) -> int {
    history + qmul_s(alpha, input - history)
}

/// The sample interval for a supported rate, exact and inside (0, DT_CAP].
pub fn calc_dt(sample_rate: u32) -> (dt: i64)
    requires
        sample_rate >= MIN_SAMPLE_RATE,
    ensures
        dt as int == calc_dt_s(sample_rate as int),
        1 <= dt <= DT_CAP,
{
    let dt: u64 = (UNIT as u64) / (sample_rate as u64);
    proof {
        let u = UNIT as int;
        let sr = sample_rate as int;
        lemma_div_multiples_vanish_fancy(DT_CAP as int, 7296, 16000);
        assert(u / 16000 == DT_CAP);
        vstd::arithmetic::div_mod::lemma_div_is_ordered_by_denominator(u, 16000, sr);
        lemma_div_non_zero_local(u, sr);
    }
    dt as i64
}

/// A quotient of a larger non-negative value by a smaller positive one is
/// at least 1.
proof fn lemma_div_non_zero_local(x: int, d: int)
    requires
        0 < d <= x,
    ensures
        x / d >= 1,
{
    vstd::arithmetic::div_mod::lemma_div_non_zero(x, d);
}

/// The chassis filter coefficient for the given cutoff and sample interval,
/// exact and inside [0, UNIT).
pub fn filter_alpha(cutoff: i64, dt: i64) -> (alpha: i64)
    requires
        0 < cutoff <= PARAM_CAP,
        0 <= dt <= UNIT,
    ensures
        alpha as int == filter_alpha_s(cutoff as int, dt as int),
        0 <= alpha < UNIT,
{
    let u_i: i64 = UNIT;
    proof {
        let u = UNIT as int;
        let c = cutoff as int;
        lemma_mul_upper_bound(TWO_PI as int, TWO_PI as int, c, PARAM_CAP as int);
        lemma_mul_nonnegative(TWO_PI as int, c);
        lemma_qmul_mag(TWO_PI as int, c);
    }
    let omega: i64 = qmul(TWO_PI, cutoff);
    proof {
        let o = omega as int;
        let d = dt as int;
        lemma_mul_upper_bound(o, 0x7fff_ffff_ffff_ffff, d, UNIT as int);
        lemma_mul_nonnegative(o, d);
        lemma_qmul_mag(o, d);
        lemma_qmul_unit(o, d, o);
    }
    let wdt: i64 = qmul(omega, dt);
    proof {
        let u = UNIT as int;
        let w = wdt as int;
        lemma_qdiv_bounds(w, u + w);
        assert(w * u < (u + w) * u) by (nonlinear_arith)
            requires
                0 <= w,
                0 < u,
        ;
        lemma_multiply_divide_lt(w * u, u + w, u);
    }
    qdiv(wdt, u_i + wdt)
}

/// The next aperture, exact with respect to `aperture_next_s` and always
/// inside [0, 1] whatever the inputs allow.
pub fn update_aperture(
    aperture: i64,
    opening: bool,
    attack: i64,
    pressure: i64,
    spring_speed: i64,
    dt: i64,
) -> (r: i64)
    requires
        0 <= aperture <= UNIT,
        0 <= attack <= UNIT,
        0 <= pressure <= PARAM_CAP,
        0 <= spring_speed <= PARAM_CAP,
        0 <= dt <= UNIT,
    ensures
        r as int == aperture_next_s(
            aperture as int,
            opening,
            attack as int,
            pressure as int,
            spring_speed as int,
            dt as int,
        ),
        0 <= r <= UNIT,
{
    if opening {
        proof {
            lemma_qmul_unit(
                (SLOW_OPEN - FAST_OPEN) as int,
                attack as int,
                (SLOW_OPEN - FAST_OPEN) as int,
            );
            assert(qmul_s(attack as int, (SLOW_OPEN - FAST_OPEN) as int) == qmul_s(
                (SLOW_OPEN - FAST_OPEN) as int,
                attack as int,
            ));
            lemma_mul_upper_bound(mag(attack as int), UNIT as int, mag((SLOW_OPEN - FAST_OPEN) as int), UNIT as int);
        }
        let excursion: i64 = qmul(attack, SLOW_OPEN - FAST_OPEN);
        let divisor: i64 = SLOW_OPEN - excursion;
        proof {
            let u = UNIT as int;
            let d = divisor as int;
            assert(u * u < d * (430 * u)) by (nonlinear_arith)
                requires
                    d >= FAST_OPEN as int,
                    u == 0x1_0000_0000,
                    FAST_OPEN == 42949673i64,
            ;
            lemma_multiply_divide_lt(u * u, d, 430 * u);
            lemma_qdiv_bounds(u, d);
            lemma_div_pos_is_pos(u * u, d);
        }
        let speed: i64 = qdiv(UNIT, divisor);
        proof {
            lemma_qmul_unit(speed as int, dt as int, speed as int);
            lemma_mul_upper_bound(mag(speed as int), 430 * (UNIT as int), mag(dt as int), UNIT as int);
        }
        clamp_unit(aperture + qmul(speed, dt))
    } else {
        proof {
            lemma_qmul_unit(pressure as int, BACKPRESSURE as int, PARAM_CAP as int);
            assert(qmul_s(BACKPRESSURE as int, pressure as int) == qmul_s(
                pressure as int,
                BACKPRESSURE as int,
            ));
            lemma_mul_upper_bound(mag(pressure as int), PARAM_CAP as int, mag(BACKPRESSURE as int), UNIT as int);
        }
        let resist: i64 = qmul(BACKPRESSURE, pressure);
        let divisor: i64 = UNIT + resist;
        proof {
            let u = UNIT as int;
            let d = divisor as int;
            let s = spring_speed as int;
            lemma_qdiv_bounds(s, d);
            assert(s * u < d * (s + 1)) by (nonlinear_arith)
                requires
                    d >= u,
                    0 <= s,
                    0 < u,
            ;
            lemma_multiply_divide_lt(s * u, d, s + 1);
            lemma_mul_nonnegative(s, u);
            lemma_div_pos_is_pos(s * u, d);
        }
        let speed: i64 = qdiv(spring_speed, divisor);
        proof {
            lemma_qmul_unit(speed as int, dt as int, speed as int);
            lemma_mul_upper_bound(mag(speed as int), PARAM_CAP as int, mag(dt as int), UNIT as int);
        }
        clamp_unit(aperture - qmul(speed, dt))
    }
}

/// The next plenum pressure, exact with respect to `pressure_next_s`.
pub fn update_pressure(pressure: i64, prm: &Params, total_aperture: i64, dt: i64) -> (r: i64)
    requires
        params_ok(*prm),
        0 <= pressure <= PARAM_CAP,
        0 <= total_aperture <= TOTAL_APERTURE_CAP,
        0 <= dt <= UNIT,
    ensures
        r as int == pressure_next_s(pressure as int, *prm, total_aperture as int, dt as int),
{
    let deficit: i64 = prm.max_pressure - pressure;
    proof {
        lemma_qmul_mag(prm.refill_speed as int, deficit as int);
        lemma_mul_upper_bound(
            mag(prm.refill_speed as int),
            PARAM_CAP as int,
            mag(deficit as int),
            PARAM_CAP as int,
        );
    }
    let air_in: i64 = qmul(prm.refill_speed, deficit);
    proof {
        lemma_qmul_mag(prm.valve_flow_rate as int, total_aperture as int);
        lemma_mul_upper_bound(
            mag(prm.valve_flow_rate as int),
            PARAM_CAP as int,
            mag(total_aperture as int),
            TOTAL_APERTURE_CAP as int,
        );
    }
    let outflow_factor: i64 = qmul(prm.valve_flow_rate, total_aperture);
    proof {
        let u = UNIT as int;
        let f = outflow_factor as int;
        assert(u * mag(f) <= (PARAM_CAP as int) * (TOTAL_APERTURE_CAP as int));
        lemma_qmul_mag(f, pressure as int);
        lemma_mul_upper_bound(mag(f), 0x4_0000_0000_0000, mag(pressure as int), PARAM_CAP as int);
    }
    let air_out: i64 = qmul(outflow_factor, pressure);
    let net: i64 = air_in - air_out;
    proof {
        let u = UNIT as int;
        assert(u * mag(air_in as int) <= (PARAM_CAP as int) * (PARAM_CAP as int));
        assert(u * mag(air_out as int) <= 0x4_0000_0000_0000 * (PARAM_CAP as int));
        lemma_qmul_mag(net as int, dt as int);
        lemma_mul_upper_bound(mag(net as int), 0x4000_0000_0000_0000, mag(dt as int), UNIT as int);
        lemma_qmul_unit(net as int, dt as int, mag(net as int));
    }
    pressure + qmul(net, dt)
}

/// The sagged frequency, exact with respect to `pitch_sag_s`. When the
/// deficit term stays inside [0, 1] the result keeps the sign of `freq` and
/// never exceeds it.
pub fn pitch_sag(pressure: i64, prm: &Params, freq: i64) -> (r: i64)
    requires
        params_ok(*prm),
        0 <= pressure <= prm.max_pressure,
        0 <= freq <= crate::voice::FREQ_CAP,
    ensures
        r as int == pitch_sag_s(pressure as int, *prm, freq as int),
        qmul_s(prm.pitch_modulation_depth as int, (prm.max_pressure as int) - (pressure as int))
            <= UNIT as int ==> 0 <= r <= freq,
{
    let deficit: i64 = prm.max_pressure - pressure;
    proof {
        lemma_qmul_unit(deficit as int, prm.pitch_modulation_depth as int, deficit as int);
        assert(qmul_s(prm.pitch_modulation_depth as int, deficit as int) == qmul_s(
            deficit as int,
            prm.pitch_modulation_depth as int,
        ));
        lemma_mul_upper_bound(
            mag(deficit as int),
            PARAM_CAP as int,
            mag(prm.pitch_modulation_depth as int),
            UNIT as int,
        );
    }
    let droop: i64 = qmul(prm.pitch_modulation_depth, deficit);
    let sag: i64 = UNIT - droop;
    proof {
        if droop <= UNIT {
            lemma_qmul_unit(freq as int, sag as int, freq as int);
        }
        lemma_qmul_mag(freq as int, sag as int);
        lemma_mul_upper_bound(
            mag(freq as int),
            crate::voice::FREQ_CAP as int,
            mag(sag as int),
            PARAM_CAP as int,
        );
    }
    qmul(freq, sag)
}

/// The two-level pulse wave, exactly +1 or -1 and nothing in between.
pub fn synthesize_pulse_wave(phase: i64, duty: i64) -> (r: i64)
    ensures
        r as int == pulse_s(phase as int, duty as int),
        r == UNIT || r == -UNIT,
{
    if phase <= duty {
        UNIT
    } else {
        -UNIT
    }
}

/// One step of the one-pole chassis filter, exact with respect to
/// `filter_s`. With a coefficient in [0, 1] and input in [-1, 1] the output
/// stays in [-1, 1]: it is a convex combination of history and input.
pub fn apply_chassis_filter(history: i64, alpha: i64, input: i64) -> (r: i64)
    requires
        -UNIT <= history <= UNIT,
        0 <= alpha <= UNIT,
        -UNIT <= input <= UNIT,
    ensures
        r as int == filter_s(history as int, alpha as int, input as int),
        -UNIT <= r <= UNIT,
{
    let step: i64 = input - history;
    proof {
        lemma_qmul_unit(step as int, alpha as int, mag(step as int));
        assert(qmul_s(alpha as int, step as int) == qmul_s(step as int, alpha as int));
        lemma_mul_upper_bound(mag(step as int), 2 * (UNIT as int), mag(alpha as int), UNIT as int);
    }
    let delta: i64 = qmul(alpha, step);
    history + delta
}

/// The pressure band is invariant: from a pressure inside [0, target], one
/// step of the explicit-Euler pressure rule stays inside [0, target]
/// whenever the refill gain per step and the outflow gain per step are each
/// below one. With no open valves the pressure never falls: the refill term
/// drives it monotonically toward the target.
pub proof fn lemma_pressure_band(pressure: int, prm: Params, total_aperture: int, dt: int)
    requires
        params_ok(prm),
        0 <= pressure <= prm.max_pressure,
        0 <= total_aperture <= TOTAL_APERTURE_CAP as int,
        0 <= dt <= UNIT as int,
        qmul_s(prm.refill_speed as int, dt) < UNIT as int,
        qmul_s(qmul_s(prm.valve_flow_rate as int, total_aperture), dt) < UNIT as int,
    ensures
        0 <= pressure_next_s(pressure, prm, total_aperture, dt) <= prm.max_pressure,
        total_aperture == 0 ==> pressure_next_s(pressure, prm, total_aperture, dt) >= pressure,
{
    let u = UNIT as int;
    let target = prm.max_pressure as int;
    let refill = prm.refill_speed as int;
    let flow = prm.valve_flow_rate as int;
    let deficit = target - pressure;
    let air_in = qmul_s(refill, deficit);
    let outflow_factor = qmul_s(flow, total_aperture);
    let air_out = qmul_s(outflow_factor, pressure);
    let net = air_in - air_out;
    let delta = qmul_s(net, dt);
    let next = pressure + delta;

    lemma_qmul_mag(refill, deficit);
    lemma_qmul_mag(flow, total_aperture);
    lemma_qmul_mag(outflow_factor, pressure);
    lemma_qmul_mag(net, dt);
    assert(air_in >= 0);
    assert(outflow_factor >= 0);
    assert(air_out >= 0);

    // refill * dt < u * u, and outflow_factor * dt < u * u
    let rd = qmul_s(refill, dt);
    lemma_qmul_mag(refill, dt);
    assert(refill * dt < u * u) by (nonlinear_arith)
        requires
            u * rd <= refill * dt < u * rd + u,
            rd < u,
            0 < u,
    ;
    let fd = qmul_s(outflow_factor, dt);
    lemma_qmul_mag(outflow_factor, dt);
    assert(outflow_factor * dt < u * u) by (nonlinear_arith)
        requires
            u * fd <= outflow_factor * dt < u * fd + u,
            fd < u,
            0 < u,
    ;

    // Upper bound: next <= target.
    if net <= 0 {
        assert(delta <= 0);
        assert(next <= pressure <= target);
    } else {
        assert(delta >= 0);
        assert(u * delta <= net * dt);
        assert(net * dt <= air_in * dt) by (nonlinear_arith)
            requires
                net <= air_in,
                0 <= dt,
        ;
        assert(u * (u * delta) <= u * (air_in * dt)) by (nonlinear_arith)
            requires
                u * delta <= air_in * dt,
                0 < u,
        ;
        assert(u * (air_in * dt) == (u * air_in) * dt) by (nonlinear_arith);
        assert((u * air_in) * dt <= (refill * deficit) * dt) by (nonlinear_arith)
            requires
                u * air_in <= refill * deficit,
                0 <= dt,
        ;
        assert((refill * deficit) * dt == (refill * dt) * deficit) by (nonlinear_arith);
        assert((refill * dt) * deficit <= (u * u) * deficit) by (nonlinear_arith)
            requires
                refill * dt < u * u,
                0 <= refill * dt,
                0 <= deficit,
        ;
        assert(u * (u * delta) <= (u * u) * deficit);
        assert(delta <= deficit) by (nonlinear_arith)
            requires
                u * (u * delta) <= (u * u) * deficit,
                0 < u,
        ;
        assert(next <= target);
    }

    // Lower bound: next >= 0, and monotone refill when nothing is open.
    if net >= 0 {
        assert(delta >= 0);
        assert(next >= pressure >= 0);
    } else {
        assert(total_aperture > 0 || air_out == 0);
        assert(mag(net) <= air_out);
        assert(u * mag(delta) <= mag(net) * dt);
        assert(mag(net) * dt <= air_out * dt) by (nonlinear_arith)
            requires
                mag(net) <= air_out,
                0 <= dt,
        ;
        assert(u * (u * mag(delta)) <= u * (air_out * dt)) by (nonlinear_arith)
            requires
                u * mag(delta) <= air_out * dt,
                0 < u,
        ;
        assert(u * (air_out * dt) == (u * air_out) * dt) by (nonlinear_arith);
        assert((u * air_out) * dt <= (outflow_factor * pressure) * dt) by (nonlinear_arith)
            requires
                u * air_out <= outflow_factor * pressure,
                0 <= dt,
        ;
        assert((outflow_factor * pressure) * dt == (outflow_factor * dt) * pressure)
            by (nonlinear_arith);
        assert((outflow_factor * dt) * pressure <= (u * u) * pressure) by (nonlinear_arith)
            requires
                outflow_factor * dt < u * u,
                0 <= outflow_factor * dt,
                0 <= pressure,
        ;
        assert(u * (u * mag(delta)) <= (u * u) * pressure);
        assert(mag(delta) <= pressure) by (nonlinear_arith)
            requires
                u * (u * mag(delta)) <= (u * u) * pressure,
                0 < u,
        ;
        assert(next >= 0);
    }
    if total_aperture == 0 {
        assert(mag(flow) * mag(0) == 0) by (nonlinear_arith);
        assert(u * mag(outflow_factor) <= 0);
        assert(outflow_factor == 0);
        assert(mag(outflow_factor) * mag(pressure) == 0) by (nonlinear_arith)
            requires
                outflow_factor == 0,
        ;
        assert(u * mag(air_out) <= 0);
        assert(air_out == 0);
        assert(net == air_in >= 0);
        assert(delta >= 0);
    }
}

} // verus!
