use rosedale::engine::{Event, SynthEngine};
use rosedale::fixed::UNIT;
use rosedale::model::APERTURE_EPS;
use rosedale::params::Params;

fn to_f64(x: i64) -> f64 {
    x as f64 / 4294967296.0
}

fn render(engine: &mut SynthEngine, frames: usize, channels: usize) -> Vec<i64> {
    let mut out: Vec<i64> = Vec::new();
    engine.render_buffer(&mut out, frames, channels);
    out
}

#[test]
fn fresh_engine_is_silent_and_empty() {
    let mut engine = SynthEngine::new(48000);
    assert_eq!(engine.pressure, 0);
    assert_eq!(engine.active_indices.len(), 0);
    assert_eq!(engine.voices.len(), 128);
    assert_eq!(engine.params, Params::default());
    let out = render(&mut engine, 64, 2);
    assert_eq!(out.len(), 128);
    assert!(out.iter().all(|&s| s == 0));
    // The plenum refills even while silent.
    assert!(engine.pressure > 0);
}

#[test]
fn note_on_twice_does_not_duplicate_the_key() {
    let mut engine = SynthEngine::new(48000);
    let on = Event::NoteOn { key: 69, velocity: 100 };
    engine.handle_event(on);
    assert_eq!(engine.active_indices.len(), 1);
    assert_eq!(engine.active_indices[0], 69);
    engine.handle_event(on);
    assert_eq!(engine.active_indices.len(), 1);
    assert_eq!(engine.active_indices[0], 69);
    assert!(engine.voices[69].opening);
}

#[test]
fn note_on_zero_velocity_acts_as_note_off() {
    let mut engine = SynthEngine::new(48000);
    engine.handle_event(Event::NoteOn { key: 60, velocity: 90 });
    assert!(engine.voices[60].opening);
    engine.handle_event(Event::NoteOn { key: 60, velocity: 0 });
    assert!(!engine.voices[60].opening);
    // The key is not removed here; removal is lazy, in the render pass.
    assert_eq!(engine.active_indices.len(), 1);
}

#[test]
fn velocity_scales_to_attack_strength() {
    let mut engine = SynthEngine::new(48000);
    engine.handle_event(Event::NoteOn { key: 69, velocity: 127 });
    assert_eq!(engine.voices[69].attack, UNIT);
    engine.handle_event(Event::NoteOn { key: 70, velocity: 102 });
    assert_eq!(engine.voices[70].attack, 3449501292);
}

#[test]
fn note_on_then_render_produces_sound() {
    let mut engine = SynthEngine::new(48000);
    engine.handle_event(Event::NoteOn { key: 69, velocity: 102 });
    let out = render(&mut engine, 4800, 1);
    assert_eq!(out.len(), 4800);
    assert!(out.iter().any(|&s| s != 0));
    assert!(engine.voices[69].valve_aperture > 0);
    assert!(out.iter().all(|&s| -UNIT < s && s < UNIT));
}

#[test]
fn note_off_decays_and_key_is_eventually_removed() {
    let mut engine = SynthEngine::new(48000);
    engine.handle_event(Event::NoteOn { key: 69, velocity: 102 });
    let _ = render(&mut engine, 4800, 1);
    engine.handle_event(Event::NoteOff { key: 69 });
    let mut blocks = 0;
    while !engine.active_indices.is_empty() {
        let _ = render(&mut engine, 480, 1);
        blocks += 1;
        assert!(blocks < 1000, "aperture never decayed");
    }
    assert!(engine.voices[69].valve_aperture <= APERTURE_EPS);
    // A removed voice contributes nothing: the next block is silent.
    let out = render(&mut engine, 480, 1);
    assert!(out.iter().all(|&s| s == 0));
}

#[test]
fn two_notes_superpose_before_clipping() {
    let mut both = SynthEngine::new(48000);
    both.handle_event(Event::NoteOn { key: 60, velocity: 100 });
    both.handle_event(Event::NoteOn { key: 64, velocity: 100 });
    let mut only60 = SynthEngine::new(48000);
    only60.handle_event(Event::NoteOn { key: 60, velocity: 100 });
    let mut only64 = SynthEngine::new(48000);
    only64.handle_event(Event::NoteOn { key: 64, velocity: 100 });
    // On the first frame every contribution is non-negative (all phases
    // start at the high pulse level), so the mix dominates each part.
    let b = render(&mut both, 1, 1)[0];
    let s60 = render(&mut only60, 1, 1)[0];
    let s64 = render(&mut only64, 1, 1)[0];
    assert!(b.abs() >= s60.abs());
    assert!(b.abs() >= s64.abs());
}

#[test]
fn every_channel_carries_the_same_signal() {
    let mut engine = SynthEngine::new(48000);
    engine.handle_event(Event::NoteOn { key: 72, velocity: 110 });
    let out = render(&mut engine, 256, 2);
    assert_eq!(out.len(), 512);
    for f in 0..256 {
        assert_eq!(out[2 * f], out[2 * f + 1]);
    }
}

#[test]
fn pressure_stays_in_band_under_load() {
    let mut engine = SynthEngine::new(16000);
    for key in 0..128u8 {
        engine.handle_event(Event::NoteOn { key, velocity: 127 });
    }
    assert_eq!(engine.active_indices.len(), 128);
    for _ in 0..20 {
        let out = render(&mut engine, 160, 1);
        assert!(0 <= engine.pressure && engine.pressure <= UNIT);
        assert!(out.iter().all(|&s| -UNIT < s && s < UNIT));
    }
}

#[test]
fn rendered_samples_convert_to_open_unit_interval() {
    let mut engine = SynthEngine::new(44100);
    engine.handle_event(Event::NoteOn { key: 33, velocity: 127 });
    engine.handle_event(Event::NoteOn { key: 45, velocity: 127 });
    let out = render(&mut engine, 4410, 2);
    for &s in &out {
        let x = to_f64(s);
        assert!(x > -1.0 && x < 1.0);
    }
}
