use rosedale::engine::{Event, SynthEngine};
use rosedale::fixed::UNIT;
use rosedale::queue::{drain_events, render_callback};
use rtrb::RingBuffer;

#[test]
fn full_queue_drops_without_blocking() {
    let (mut producer, consumer) = RingBuffer::<Event>::new(4);
    let mut accepted = 0;
    for key in 0..10u8 {
        if producer.push(Event::NoteOn { key, velocity: 64 }).is_ok() {
            accepted += 1;
        }
    }
    // Exactly the capacity is held; the rest were dropped, and every push
    // returned immediately.
    assert_eq!(accepted, 4);
    assert!(producer.is_full());
    assert_eq!(producer.slots(), 0);
    drop(consumer);
}

#[test]
fn drain_applies_events_in_arrival_order() {
    let (mut producer, mut consumer) = RingBuffer::<Event>::new(128);
    producer.push(Event::NoteOn { key: 69, velocity: 100 }).unwrap();
    producer.push(Event::NoteOff { key: 69 }).unwrap();
    let mut engine = SynthEngine::new(48000);
    drain_events(&mut consumer, &mut engine);
    // The on was applied (key inserted), then the off (valve released).
    assert_eq!(engine.active_indices.len(), 1);
    assert_eq!(engine.active_indices[0], 69);
    assert!(!engine.voices[69].opening);
    // The queue is now empty.
    assert!(consumer.is_empty());
}

#[test]
fn drain_discards_out_of_range_events() {
    let (mut producer, mut consumer) = RingBuffer::<Event>::new(8);
    producer.push(Event::NoteOn { key: 200, velocity: 64 }).unwrap();
    producer.push(Event::NoteOn { key: 3, velocity: 250 }).unwrap();
    let mut engine = SynthEngine::new(48000);
    drain_events(&mut consumer, &mut engine);
    assert_eq!(engine.active_indices.len(), 0);
    assert!(!engine.voices[3].opening);
}

#[test]
fn callback_drains_then_renders() {
    let (mut producer, mut consumer) = RingBuffer::<Event>::new(128);
    producer.push(Event::NoteOn { key: 69, velocity: 102 }).unwrap();
    let mut engine = SynthEngine::new(48000);
    let mut out: Vec<i64> = Vec::new();
    render_callback(&mut consumer, &mut engine, &mut out, 480, 2);
    assert_eq!(out.len(), 960);
    assert!(out.iter().any(|&s| s != 0));
    assert!(out.iter().all(|&s| -UNIT < s && s < UNIT));
    for f in 0..480 {
        assert_eq!(out[2 * f], out[2 * f + 1]);
    }
    // The event was consumed by the drain.
    assert!(consumer.is_empty());
}
