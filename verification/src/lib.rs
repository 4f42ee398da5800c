//! A monophonic-per-key physical-model organ synthesizer.
//!
//! A shared pneumatic plenum feeds 128 reed-like valves, one per key. Note
//! events open and close the valves; each open valve drives a pulse
//! oscillator whose output passes through a one-pole chassis filter before
//! being mixed, soft-clipped, and broadcast to the output channels.
//!
//! All signal arithmetic is Q32.32 fixed point (`i64`, 32 fractional bits),
//! so every physical-model step is exact integer arithmetic with a proved
//! absence of overflow.

pub mod engine;
pub mod fixed;
pub mod model;
pub mod params;
pub mod queue;
pub mod voice;
