//! Engine configuration: the immutable per-instance parameter set, its
//! documented defaults, and the validity bounds that every computation in
//! the physical model relies on.

use crate::fixed::UNIT;
use vstd::prelude::*;

verus! {

/// Largest magnitude any configuration field may take (2048.0 in Q32.32).
/// This is a machine limit of the fixed-point arithmetic: it keeps every
/// intermediate product of the pressure and filter computations inside the
/// 128-bit headroom the executable code reserves.
pub const PARAM_CAP: i64 = 0x800_0000_0000;

/// Default target static pressure (1.0).
pub const DEFAULT_MAX_PRESSURE: i64 = 0x1_0000_0000;

/// Default plenum refill speed (10.0).
pub const DEFAULT_REFILL_SPEED: i64 = 0xA_0000_0000;

/// Default valve flow coefficient (0.6).
pub const DEFAULT_VALVE_FLOW_RATE: i64 = 2576980378;

/// Default pulse duty cycle (0.3).
pub const DEFAULT_PULSE_DUTY_CYCLE: i64 = 1288490189;

/// Default pitch modulation depth (0.06).
pub const DEFAULT_PITCH_MODULATION_DEPTH: i64 = 257698038;

/// Default tuning multiplier (1.0); reserved, never consulted by the
/// signal path.
pub const DEFAULT_TUNING_MULTIPLIER: i64 = 0x1_0000_0000;

/// Default chassis filter cutoff (1500.0 Hz).
pub const DEFAULT_FILTER_CUTOFF: i64 = 0x5DC_0000_0000;

/// Default valve spring-return speed (25.0).
pub const DEFAULT_SPRING_SPEED: i64 = 0x19_0000_0000;

/// The engine's configuration, fixed for the lifetime of an instance.
/// All fields are Q32.32 fixed point.
#[derive(Clone, Copy, PartialEq, Eq, Structural, Debug)]
pub struct Params {
    /// The static pressure the plenum refills toward.
    pub max_pressure: i64,
    /// How quickly the pump refills the plenum.
    pub refill_speed: i64,
    /// Outflow coefficient through open valves.
    pub valve_flow_rate: i64,
    /// Fraction of the oscillator period held at the low rail.
    pub pulse_duty_cycle: i64,
    /// Sensitivity of pitch to the pressure deficit.
    pub pitch_modulation_depth: i64,
    /// Reserved meta-parameter; not consulted by any computation.
    pub tuning_multiplier: i64,
    /// Chassis low-pass cutoff frequency in Hz.
    pub filter_cutoff: i64,
    /// The speed at which un-driven valves close.
    pub spring_speed: i64,
}

/// A valid configuration: refill speed, flow coefficient and spring speed
/// are non-negative, the duty cycle lies in [0, 1], the cutoff is positive,
/// and every field respects the fixed-point magnitude cap.
pub open spec fn params_ok(p: Params) -> bool {
    &&& 0 <= p.max_pressure <= PARAM_CAP
    &&& 0 <= p.refill_speed <= PARAM_CAP
    &&& 0 <= p.valve_flow_rate <= PARAM_CAP
    &&& 0 <= p.pulse_duty_cycle <= UNIT
    &&& 0 <= p.pitch_modulation_depth <= UNIT
    &&& 0 <= p.tuning_multiplier <= PARAM_CAP
    &&& 0 < p.filter_cutoff <= PARAM_CAP
    &&& 0 <= p.spring_speed <= PARAM_CAP
}

/// The documented default configuration.
pub open spec fn default_params() -> Params {
    Params {
        max_pressure: DEFAULT_MAX_PRESSURE,
        refill_speed: DEFAULT_REFILL_SPEED,
        valve_flow_rate: DEFAULT_VALVE_FLOW_RATE,
        pulse_duty_cycle: DEFAULT_PULSE_DUTY_CYCLE,
        pitch_modulation_depth: DEFAULT_PITCH_MODULATION_DEPTH,
        tuning_multiplier: DEFAULT_TUNING_MULTIPLIER,
        filter_cutoff: DEFAULT_FILTER_CUTOFF,
        spring_speed: DEFAULT_SPRING_SPEED,
    }
}

/// The defaults form a valid configuration.
pub proof fn lemma_default_params_ok()
    ensures
        params_ok(default_params()),
{
}

impl Default for Params {
    /// The documented defaults: target pressure 1.0, refill speed 10.0,
    /// valve flow 0.6, duty cycle 0.3, pitch-mod depth 0.06, tuning
    /// multiplier 1.0, filter cutoff 1500 Hz, spring speed 25.0.
    fn default() -> (p: Params)
        ensures
            p == default_params(),
            params_ok(p),
    {
        Params {
            max_pressure: DEFAULT_MAX_PRESSURE,
            refill_speed: DEFAULT_REFILL_SPEED,
            valve_flow_rate: DEFAULT_VALVE_FLOW_RATE,
            pulse_duty_cycle: DEFAULT_PULSE_DUTY_CYCLE,
            pitch_modulation_depth: DEFAULT_PITCH_MODULATION_DEPTH,
            tuning_multiplier: DEFAULT_TUNING_MULTIPLIER,
            filter_cutoff: DEFAULT_FILTER_CUTOFF,
            spring_speed: DEFAULT_SPRING_SPEED,
        }
    }
}

} // verus!
