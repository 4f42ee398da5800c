//! The consumer side of the bounded, lock-free single-producer
//! single-consumer event channel between the input thread and the render
//! thread, and the per-buffer render entry point that drains it.
//!
//! The channel is rtrb's ring buffer. The producer half lives with the
//! input boundary; it pushes best-effort and drops the newest event when
//! the ring is full, never blocking. The render thread owns the consumer
//! half and, once per buffer, pops every available event non-blockingly
//! and in arrival order before rendering. Because another thread may be
//! pushing concurrently, nothing can be promised about which value a pop
//! yields; every popped event is therefore validated and handled by
//! verified code that is correct for any value.

use crate::engine::{Event, SynthEngine};
use crate::fixed::UNIT;
use vstd::prelude::*;

verus! {

#[verifier::external_type_specification]
#[verifier::external_body]
#[verifier::reject_recursive_types(T)]
pub struct ExConsumer<T>(rtrb::Consumer<T>);

/// Relies on rtrb::Consumer::pop: non-blocking; it moves the oldest
/// element out of the ring, or reports PopError::Empty (mapped to None)
/// when no element is currently readable.
#[verifier::external_body]
fn pop_event(consumer: &mut rtrb::Consumer<Event>) -> (e: Option<Event>) {
    match consumer.pop() {
        Ok(event) => Some(event),
        Err(rtrb::PopError::Empty) => None,
    }
}

/// Relies on rtrb::Consumer::slots: the number of elements currently
/// available for reading. Concurrent production may only add more.
#[verifier::external_body]
fn available_events(consumer: &rtrb::Consumer<Event>) -> usize {
    consumer.slots()
}

/// Drain the channel non-blockingly, applying every available event to the
/// engine in arrival order. Events outside the 7-bit MIDI range, which the
/// parsing boundary never produces, are discarded. The engine stays
/// well-formed whatever arrives, and no event touches the pressure, the
/// configuration or the cached rate constants.
pub fn drain_events(consumer: &mut rtrb::Consumer<Event>, engine: &mut SynthEngine)
    requires
        old(engine).wf(),
    ensures
        final(engine).wf(),
        final(engine).params == old(engine).params,
        final(engine).pressure == old(engine).pressure,
        final(engine).sample_rate == old(engine).sample_rate,
        final(engine).dt == old(engine).dt,
        final(engine).alpha == old(engine).alpha,
{
    let budget: usize = available_events(consumer);
    let mut i: usize = 0;
    while i < budget
        invariant
            i <= budget,
            engine.wf(),
            engine.params == old(engine).params,
            engine.pressure == old(engine).pressure,
            engine.sample_rate == old(engine).sample_rate,
            engine.dt == old(engine).dt,
            engine.alpha == old(engine).alpha,
        decreases budget - i,
    {
        match pop_event(consumer) {
            Some(event) => {
                let valid: bool = match event {
                    Event::NoteOn { key, velocity } => key < 128 && velocity < 128,
                    Event::NoteOff { key } => key < 128,
                };
                if valid {
                    engine.handle_event(event);
                }
                i += 1;
            },
            None => {
                i = budget;
            },
        }
    }
}

/// The per-buffer render entry point, as the audio driver invokes it:
/// drain all pending events, then render the block. Every produced sample
/// lies strictly inside (-1, 1) and each frame's mono value is broadcast
/// identically to all channels.
pub fn render_callback(
    consumer: &mut rtrb::Consumer<Event>,
    engine: &mut SynthEngine,
    out: &mut Vec<i64>,
    frames: usize,
    channels: usize,
)
    requires
        old(engine).wf(),
        1 <= channels,
        frames * channels <= usize::MAX,
    ensures
        final(engine).wf(),
        final(engine).sample_rate == old(engine).sample_rate,
        final(engine).params == old(engine).params,
        final(out)@.len() == frames * channels,
        forall|t: int|
            0 <= t < final(out)@.len() ==> -(UNIT as int) < (#[trigger] final(out)@[t])
                < UNIT as int,
        forall|fr: int, c: int|
            0 <= fr < frames && 0 <= c < channels ==> (#[trigger] final(out)@[fr * (
            channels as int) + c]) == final(out)@[fr * (channels as int)],
{
    drain_events(consumer, engine);
    engine.render_buffer(out, frames, channels);
}

} // verus!
