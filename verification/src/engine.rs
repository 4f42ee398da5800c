//! The synthesis engine: the fixed 128-voice pool, the shared plenum
//! pressure, the ordered active-index set, event handling, and the
//! per-sample render loop that mixes every active voice into a mono signal
//! and broadcasts it to the output channels.

use crate::fixed::{clip_s, mag, qmul, qmul_s, soft_clip, UNIT};
use crate::model::{
    aperture_next_s, apply_chassis_filter, calc_dt, calc_dt_s, filter_alpha, filter_alpha_s,
    filter_s, pitch_sag, pitch_sag_s, pressure_next_s, pulse_s, synthesize_pulse_wave,
    update_aperture, update_pressure, APERTURE_EPS, DT_CAP, MIN_SAMPLE_RATE, TOTAL_APERTURE_CAP,
};
use crate::params::{default_params, Params};
use crate::voice::{initial_voice_s, voice_wf, VoiceState, FREQ_CAP};
use vstd::arithmetic::div_mod::{lemma_div_is_ordered, lemma_div_multiples_vanish};
use vstd::arithmetic::mul::{lemma_mul_nonnegative, lemma_mul_upper_bound};
use vstd::prelude::*;
use vstd::set_lib::lemma_len_subset;

verus! {

/// A structured note event, as handed over by the input boundary.
#[derive(Clone, Copy, PartialEq, Eq, Structural, Debug)]
pub enum Event {
    /// Note-on; a velocity of zero acts as a note-off.
    NoteOn { key: u8, velocity: u8 },
    /// Note-off.
    NoteOff { key: u8 },
}

/// Events carry a 7-bit key and a 7-bit velocity.
pub open spec fn event_wf(e: Event) -> bool {
    match e {
        Event::NoteOn { key, velocity } => key < 128 && velocity < 128,
        Event::NoteOff { key } => key < 128,
    }
}

/// MIDI velocity scaled into [0, 1]: `velocity / 127` in Q32.32.
pub open spec fn strength_s(velocity: int) -> int {
    (velocity * (UNIT as int)) / 127
}

/// A voice after a note-on: driven open with the event's attack strength.
pub open spec fn note_on_voice_s(v: VoiceState, velocity: int) -> VoiceState {
    VoiceState { opening: true, attack: strength_s(velocity) as i64, ..v }
}

/// A voice after a note-off: no longer driven; the spring closes it.
pub open spec fn note_off_voice_s(v: VoiceState) -> VoiceState {
    VoiceState { opening: false, ..v }
}

/// Order-preserving insert-if-absent into the active-index set.
pub open spec fn insert_active_s(active: Seq<usize>, key: usize) -> Seq<usize> {
    if active.contains(key) {
        active
    } else {
        active.push(key)
    }
}

/// A voice still contributing: driven open, or aperture above the
/// near-zero threshold.
pub open spec fn voice_alive(v: VoiceState) -> bool {
    v.opening || v.valve_aperture > APERTURE_EPS
}

/// The active-index set after compaction: the keys whose voices are still
/// alive, in their original order.
pub open spec fn compact_s(active: Seq<usize>, voices: Seq<VoiceState>) -> Seq<usize>
    decreases active.len(),
{
    if active.len() == 0 {
        Seq::empty()
    } else {
        let rest = compact_s(active.drop_last(), voices);
        if voice_alive(voices[active.last() as int]) {
            rest.push(active.last())
        } else {
            rest
        }
    }
}

/// Sum of the apertures of the first `n` active voices.
pub open spec fn sum_aperture_s(voices: Seq<VoiceState>, active: Seq<usize>, n: int) -> int
    decreases n,
{
    if n <= 0 {
        0
    } else {
        sum_aperture_s(voices, active, n - 1) + voices[active[n - 1] as int].valve_aperture
    }
}

/// One voice's per-sample step under plenum pressure `p`: aperture update,
/// then (if audible) pitch sag, phase advance with wrap, pulse synthesis
/// and the chassis filter.
pub open spec fn voice_step_s(v: VoiceState, p: int, prm: Params, dt: int, alpha: int) -> VoiceState {
    let ap = aperture_next_s(v.valve_aperture as int, v.opening, v.attack as int, p, prm.spring_speed as int, dt);
    if ap <= APERTURE_EPS as int {
        VoiceState { valve_aperture: ap as i64, ..v }
    } else {
        let f = pitch_sag_s(p, prm, v.freq as int);
        let ph0 = (v.phase as int) + qmul_s(f, dt);
        let ph = if ph0 > UNIT as int {
            ph0 - (UNIT as int)
        } else {
            ph0
        };
        let raw = pulse_s(ph, prm.pulse_duty_cycle as int);
        let filt = filter_s(v.sample_history as int, alpha, raw);
        VoiceState {
            valve_aperture: ap as i64,
            phase: ph as i64,
            sample_history: filt as i64,
            ..v
        }
    }
}

/// One voice's contribution to the mono mix this sample:
/// `filtered * aperture * pressure`, or zero below the aperture threshold.
pub open spec fn contrib_s(v: VoiceState, p: int, prm: Params, dt: int, alpha: int) -> int {
    let ap = aperture_next_s(v.valve_aperture as int, v.opening, v.attack as int, p, prm.spring_speed as int, dt);
    if ap <= APERTURE_EPS as int {
        0
    } else {
        let f = pitch_sag_s(p, prm, v.freq as int);
        let ph0 = (v.phase as int) + qmul_s(f, dt);
        let ph = if ph0 > UNIT as int {
            ph0 - (UNIT as int)
        } else {
            ph0
        };
        let raw = pulse_s(ph, prm.pulse_duty_cycle as int);
        let filt = filter_s(v.sample_history as int, alpha, raw);
        qmul_s(qmul_s(filt, ap), p)
    }
}

/// The voice pool after the first `n` active voices took their per-sample
/// step under pressure `p`.
pub open spec fn voices_walk_s(
    voices: Seq<VoiceState>,
    active: Seq<usize>,
    n: int,
    p: int,
    prm: Params,
    dt: int,
    alpha: int,
) -> Seq<VoiceState>
    decreases n,
{
    if n <= 0 {
        voices
    } else {
        let prev = voices_walk_s(voices, active, n - 1, p, prm, dt, alpha);
        prev.update(active[n - 1] as int, voice_step_s(prev[active[n - 1] as int], p, prm, dt, alpha))
    }
}

/// The mono mix accumulated over the first `n` active voices.
pub open spec fn mix_walk_s(
    voices: Seq<VoiceState>,
    active: Seq<usize>,
    n: int,
    p: int,
    prm: Params,
    dt: int,
    alpha: int,
) -> int
    decreases n,
{
    if n <= 0 {
        0
    } else {
        let prev = voices_walk_s(voices, active, n - 1, p, prm, dt, alpha);
        mix_walk_s(voices, active, n - 1, p, prm, dt, alpha) + contrib_s(
            prev[active[n - 1] as int],
            p,
            prm,
            dt,
            alpha,
        )
    }
}

/// The plenum pressure after one frame: updated once, before any per-voice
/// work, from the previous tick's apertures.
pub open spec fn frame_pressure_s(
    voices: Seq<VoiceState>,
    active: Seq<usize>,
    pressure: int,
    prm: Params,
    dt: int,
) -> int {
    pressure_next_s(pressure, prm, sum_aperture_s(voices, active, active.len() as int), dt)
}

/// The voice pool after one frame.
pub open spec fn frame_voices_s(
    voices: Seq<VoiceState>,
    active: Seq<usize>,
    pressure: int,
    prm: Params,
    dt: int,
    alpha: int,
) -> Seq<VoiceState> {
    voices_walk_s(
        voices,
        active,
        active.len() as int,
        frame_pressure_s(voices, active, pressure, prm, dt),
        prm,
        dt,
        alpha,
    )
}

/// The soft-clipped mono sample produced by one frame.
pub open spec fn frame_mono_s(
    voices: Seq<VoiceState>,
    active: Seq<usize>,
    pressure: int,
    prm: Params,
    dt: int,
    alpha: int,
) -> int {
    clip_s(
        mix_walk_s(
            voices,
            active,
            active.len() as int,
            frame_pressure_s(voices, active, pressure, prm, dt),
            prm,
            dt,
            alpha,
        ),
    )
}

/// The voice pool after `n` frames.
pub open spec fn run_voices_s(
    voices: Seq<VoiceState>,
    active: Seq<usize>,
    pressure: int,
    prm: Params,
    dt: int,
    alpha: int,
    n: int,
) -> Seq<VoiceState>
    decreases n,
{
    if n <= 0 {
        voices
    } else {
        frame_voices_s(
            run_voices_s(voices, active, pressure, prm, dt, alpha, n - 1),
            active,
            run_pressure_s(voices, active, pressure, prm, dt, alpha, n - 1),
            prm,
            dt,
            alpha,
        )
    }
}

/// The plenum pressure after `n` frames.
pub open spec fn run_pressure_s(
    voices: Seq<VoiceState>,
    active: Seq<usize>,
    pressure: int,
    prm: Params,
    dt: int,
    alpha: int,
    n: int,
) -> int
    decreases n,
{
    if n <= 0 {
        pressure
    } else {
        frame_pressure_s(
            run_voices_s(voices, active, pressure, prm, dt, alpha, n - 1),
            active,
            run_pressure_s(voices, active, pressure, prm, dt, alpha, n - 1),
            prm,
            dt,
        )
    }
}

/// The mono samples produced by `n` frames.
pub open spec fn run_monos_s(
    voices: Seq<VoiceState>,
    active: Seq<usize>,
    pressure: int,
    prm: Params,
    dt: int,
    alpha: int,
    n: int,
) -> Seq<int>
    decreases n,
{
    if n <= 0 {
        Seq::empty()
    } else {
        run_monos_s(voices, active, pressure, prm, dt, alpha, n - 1).push(
            frame_mono_s(
                run_voices_s(voices, active, pressure, prm, dt, alpha, n - 1),
                active,
                run_pressure_s(voices, active, pressure, prm, dt, alpha, n - 1),
                prm,
                dt,
                alpha,
            ),
        )
    }
}

/// Rendering `n` frames yields exactly `n` mono samples.
pub proof fn lemma_run_monos_len(
    voices: Seq<VoiceState>,
    active: Seq<usize>,
    pressure: int,
    prm: Params,
    dt: int,
    alpha: int,
    n: int,
)
    ensures
        run_monos_s(voices, active, pressure, prm, dt, alpha, n).len() == if n <= 0 {
            0
        } else {
            n
        },
    decreases n,
{
    if n > 0 {
        lemma_run_monos_len(voices, active, pressure, prm, dt, alpha, n - 1);
    }
}

/// A no-duplicate index sequence over the 128-voice pool holds at most 128
/// entries.
pub proof fn lemma_active_len(active: Seq<usize>)
    requires
        active.no_duplicates(),
        forall|j: int| 0 <= j < active.len() ==> (#[trigger] active[j]) < 128,
    ensures
        active.len() <= 128,
{
    let ints = active.map_values(|x: usize| x as int);
    assert(ints.no_duplicates()) by {
        assert forall|i: int, j: int|
            0 <= i < ints.len() && 0 <= j < ints.len() && i != j implies ints[i] != ints[j] by {
            assert(active[i] != active[j]);
        }
    }
    ints.unique_seq_to_set();
    let range = vstd::set_lib::set_int_range(0, 128);
    vstd::set_lib::lemma_int_range(0, 128);
    assert forall|x: int| ints.to_set().contains(x) implies range.contains(x) by {
        let k = choose|k: int| 0 <= k < ints.len() && ints[k] == x;
        assert(active[k] < 128);
    }
    lemma_len_subset(ints.to_set(), range);
}

/// Membership in the compacted active set: exactly the previously active
/// keys whose voices are still alive, with order, uniqueness and the
/// 128-bound preserved.
pub proof fn lemma_compact_props(active: Seq<usize>, voices: Seq<VoiceState>)
    requires
        active.no_duplicates(),
        forall|j: int| 0 <= j < active.len() ==> (#[trigger] active[j]) < 128,
    ensures
        compact_s(active, voices).no_duplicates(),
        forall|j: int|
            0 <= j < compact_s(active, voices).len() ==> (#[trigger] compact_s(active, voices)[j])
                < 128,
        forall|k: usize| #[trigger]
            compact_s(active, voices).contains(k) <==> (active.contains(k) && voice_alive(
                voices[k as int],
            )),
    decreases active.len(),
{
    if active.len() == 0 {
        assert forall|k: usize| !compact_s(active, voices).contains(k) by {}
        assert forall|k: usize| !active.contains(k) by {}
    } else {
        let rest = active.drop_last();
        let last = active.last();
        lemma_compact_props(rest, voices);
        let crest = compact_s(rest, voices);
        let cfull = compact_s(active, voices);
        assert(!rest.contains(last));
        assert(!crest.contains(last));
        if voice_alive(voices[last as int]) {
            assert(cfull == crest.push(last));
            assert forall|k: usize| #[trigger] cfull.contains(k) implies (active.contains(k)
                && voice_alive(voices[k as int])) by {
                if k == last {
                    assert(active[active.len() - 1] == last);
                } else {
                    assert(crest.contains(k));
                    let j = choose|j: int| 0 <= j < rest.len() && rest[j] == k;
                    assert(active[j] == k);
                }
            }
            assert forall|k: usize| (active.contains(k) && voice_alive(voices[k as int]))
                implies #[trigger] cfull.contains(k) by {
                let j = choose|j: int| 0 <= j < active.len() && active[j] == k;
                if j < active.len() - 1 {
                    assert(rest[j] == k);
                    assert(crest.contains(k));
                    let i = choose|i: int| 0 <= i < crest.len() && crest[i] == k;
                    assert(cfull[i] == k);
                } else {
                    assert(cfull[cfull.len() - 1] == k);
                }
            }
        } else {
            assert(cfull == crest);
            assert forall|k: usize| #[trigger] cfull.contains(k) implies (active.contains(k)
                && voice_alive(voices[k as int])) by {
                let j = choose|j: int| 0 <= j < rest.len() && rest[j] == k;
                assert(active[j] == k);
            }
            assert forall|k: usize| (active.contains(k) && voice_alive(voices[k as int]))
                implies #[trigger] cfull.contains(k) by {
                let j = choose|j: int| 0 <= j < active.len() && active[j] == k;
                if j == active.len() - 1 {
                    assert(!voice_alive(voices[k as int]));
                } else {
                    assert(rest[j] == k);
                }
            }
        }
    }
}

/// Inserting a key on note-on is idempotent: handling the same note-on
/// twice leaves exactly one copy of the key in the active-index set and the
/// same voice state as a single note-on, and insertion never introduces a
/// duplicate.
pub proof fn lemma_note_on_idempotent(
    active: Seq<usize>,
    key: usize,
    v: VoiceState,
    velocity: int,
)
    ensures
        insert_active_s(insert_active_s(active, key), key) == insert_active_s(active, key),
        note_on_voice_s(note_on_voice_s(v, velocity), velocity) == note_on_voice_s(v, velocity),
        active.no_duplicates() ==> insert_active_s(active, key).no_duplicates(),
{
    if !active.contains(key) {
        assert(active.push(key)[active.len() as int] == key);
        assert(insert_active_s(active, key).contains(key));
    }
}

/// Superposition before clipping: with two distinct active keys, the
/// pre-clip mix is exactly the sum of the two voices' individual
/// contributions, each computed from that voice's own prior state; and
/// when the two contributions do not cancel (they share a sign), the mix's
/// magnitude is at least either contribution's alone.
pub proof fn lemma_two_voice_superposition(
    voices: Seq<VoiceState>,
    active: Seq<usize>,
    p: int,
    prm: Params,
    dt: int,
    alpha: int,
)
    requires
        active.len() == 2,
        active[0] != active[1],
        (active[0] as int) < voices.len(),
        (active[1] as int) < voices.len(),
    ensures
        mix_walk_s(voices, active, 2, p, prm, dt, alpha) == contrib_s(
            voices[active[0] as int],
            p,
            prm,
            dt,
            alpha,
        ) + contrib_s(voices[active[1] as int], p, prm, dt, alpha),
        (contrib_s(voices[active[0] as int], p, prm, dt, alpha) >= 0 && contrib_s(
            voices[active[1] as int],
            p,
            prm,
            dt,
            alpha,
        ) >= 0) || (contrib_s(voices[active[0] as int], p, prm, dt, alpha) <= 0 && contrib_s(
            voices[active[1] as int],
            p,
            prm,
            dt,
            alpha,
        ) <= 0) ==> mag(mix_walk_s(voices, active, 2, p, prm, dt, alpha)) >= mag(
            contrib_s(voices[active[0] as int], p, prm, dt, alpha),
        ) && mag(mix_walk_s(voices, active, 2, p, prm, dt, alpha)) >= mag(
            contrib_s(voices[active[1] as int], p, prm, dt, alpha),
        ),
{
    let a0 = active[0] as int;
    let a1 = active[1] as int;
    assert(voices_walk_s(voices, active, 0, p, prm, dt, alpha) == voices);
    assert(mix_walk_s(voices, active, 0, p, prm, dt, alpha) == 0);
    let walked = voices_walk_s(voices, active, 1, p, prm, dt, alpha);
    assert(walked == voices.update(a0, voice_step_s(voices[a0], p, prm, dt, alpha)));
    assert(walked[a1] == voices[a1]);
    assert(mix_walk_s(voices, active, 1, p, prm, dt, alpha) == contrib_s(
        voices[a0],
        p,
        prm,
        dt,
        alpha,
    ));
}

/// The synthesizer: 128 pre-allocated voices, the shared plenum pressure,
/// the active-index set, and the cached per-sample constants.
pub struct SynthEngine {
    /// The engine's configuration (the documented defaults).
    pub params: Params,
    /// The shared plenum pressure, in [0, target].
    pub pressure: i64,
    /// The fixed pool of 128 voices, addressed by key.
    pub voices: Vec<VoiceState>,
    /// The output sample rate in Hz.
    pub sample_rate: u32,
    /// The cached sample interval `1 / sample_rate`.
    pub dt: i64,
    /// The cached chassis filter coefficient.
    pub alpha: i64,
    /// Ordered set of keys currently contributing to output.
    pub active_indices: Vec<usize>,
}

impl SynthEngine {
    /// Engine well-formedness: default configuration, a full voice pool of
    /// well-formed voices, pressure inside [0, target], cached constants
    /// consistent with the sample rate, and a duplicate-free active set of
    /// valid keys.
    pub open spec fn wf(self) -> bool {
        &&& self.params == default_params()
        &&& self.voices@.len() == 128
        &&& forall|k: int| 0 <= k < 128 ==> voice_wf(#[trigger] self.voices@[k], k)
        &&& 0 <= self.pressure <= self.params.max_pressure
        &&& self.sample_rate >= MIN_SAMPLE_RATE
        &&& self.dt as int == calc_dt_s(self.sample_rate as int)
        &&& 1 <= self.dt <= DT_CAP
        &&& self.alpha as int == filter_alpha_s(self.params.filter_cutoff as int, self.dt as int)
        &&& 0 <= self.alpha < UNIT
        &&& self.active_indices@.no_duplicates()
        &&& forall|j: int|
            0 <= j < self.active_indices@.len() ==> (#[trigger] self.active_indices@[j]) < 128
    }

    /// A fresh engine at the given sample rate: silent voices, zero
    /// pressure, an empty active set, and the default configuration.
    pub fn new(sample_rate: u32) -> (engine: SynthEngine)
        requires
            sample_rate >= MIN_SAMPLE_RATE,
        ensures
            engine.wf(),
            engine.params == default_params(),
            engine.pressure == 0,
            engine.sample_rate == sample_rate,
            engine.active_indices@ =~= Seq::<usize>::empty(),
            engine.voices@.len() == 128,
            forall|k: int| 0 <= k < 128 ==> engine.voices@[k] == initial_voice_s(k),
    {
        let params = Params::default();
        let dt = calc_dt(sample_rate);
        let alpha = filter_alpha(params.filter_cutoff, dt);
        let mut voices: Vec<VoiceState> = Vec::with_capacity(128);
        let mut i: usize = 0;
        while i < 128
            invariant
                i <= 128,
                voices@.len() == i,
                forall|k: int| 0 <= k < i ==> voices@[k] == initial_voice_s(k),
                forall|k: int| 0 <= k < i ==> voice_wf(#[trigger] voices@[k], k),
            decreases 128 - i,
        {
            voices.push(VoiceState::new(i as u8));
            i += 1;
        }
        SynthEngine {
            params,
            pressure: 0,
            voices,
            sample_rate,
            dt,
            alpha,
            active_indices: Vec::with_capacity(128),
        }
    }

    /// Consume one note event. A note-on with positive velocity drives the
    /// key's valve open with the scaled attack strength and inserts the key
    /// into the active set if absent; a note-on with zero velocity or a
    /// note-off releases the valve and leaves the active set unchanged.
    pub fn handle_event(&mut self, event: Event)
        requires
            old(self).wf(),
            event_wf(event),
        ensures
            final(self).wf(),
            final(self).params == old(self).params,
            final(self).pressure == old(self).pressure,
            final(self).sample_rate == old(self).sample_rate,
            final(self).dt == old(self).dt,
            final(self).alpha == old(self).alpha,
            match event {
                Event::NoteOn { key, velocity } => if velocity > 0 {
                    final(self).voices@ == old(self).voices@.update(
                        key as int,
                        note_on_voice_s(old(self).voices@[key as int], velocity as int),
                    ) && final(self).active_indices@ == insert_active_s(
                        old(self).active_indices@,
                        key as usize,
                    )
                } else {
                    final(self).voices@ == old(self).voices@.update(
                        key as int,
                        note_off_voice_s(old(self).voices@[key as int]),
                    ) && final(self).active_indices@ == old(self).active_indices@
                },
                Event::NoteOff { key } => final(self).voices@ == old(self).voices@.update(
                    key as int,
                    note_off_voice_s(old(self).voices@[key as int]),
                ) && final(self).active_indices@ == old(self).active_indices@,
            },
    {
        match event {
            Event::NoteOn { key, velocity } => {
                let idx: usize = key as usize;
                if velocity > 0 {
                    let strength: i64 = (((velocity as u64) * (UNIT as u64)) / 127) as i64;
                    proof {
                        let u = UNIT as int;
                        lemma_div_is_ordered(velocity as int * u, 127 * u, 127);
                        lemma_div_multiples_vanish(u, 127);
                        lemma_mul_nonnegative(velocity as int, u);
                        vstd::arithmetic::div_mod::lemma_div_pos_is_pos(velocity as int * u, 127);
                    }
                    let v = self.voices[idx];
                    self.voices[idx] = VoiceState { opening: true, attack: strength, ..v };
                    let ghost g_active = self.active_indices@;
                    let mut present: bool = false;
                    let mut i: usize = 0;
                    let n: usize = self.active_indices.len();
                    while i < n
                        invariant
                            i <= n,
                            n == g_active.len(),
                            self.active_indices@ == g_active,
                            present <==> g_active.take(i as int).contains(idx),
                        decreases n - i,
                    {
                        if self.active_indices[i] == idx {
                            present = true;
                            proof {
                                assert(g_active.take(i as int + 1)[i as int] == idx);
                            }
                        }
                        proof {
                            if g_active.take(i as int).contains(idx) {
                                let j = choose|j: int|
                                    0 <= j < i && g_active.take(i as int)[j] == idx;
                                assert(g_active.take(i as int + 1)[j] == idx);
                            } else if g_active[i as int] != idx {
                                if g_active.take(i as int + 1).contains(idx) {
                                    let j = choose|j: int|
                                        0 <= j < i + 1 && #[trigger] g_active.take(i as int + 1)[j]
                                            == idx;
                                    if j < i {
                                        assert(g_active.take(i as int)[j] == idx);
                                    }
                                }
                            }
                        }
                        i += 1;
                    }
                    proof {
                        assert(g_active.take(n as int) =~= g_active);
                    }
                    if !present {
                        self.active_indices.push(idx);
                        proof {
                            assert forall|a: int, b: int|
                                0 <= a < self.active_indices@.len() && 0 <= b
                                    < self.active_indices@.len() && a != b
                                implies self.active_indices@[a] != self.active_indices@[b] by {
                                if a < g_active.len() && b < g_active.len() {
                                } else if a == g_active.len() {
                                    assert(!g_active.contains(idx));
                                    assert(g_active[b] != idx);
                                } else {
                                    assert(!g_active.contains(idx));
                                    assert(g_active[a] != idx);
                                }
                            }
                        }
                    }
                } else {
                    let v = self.voices[idx];
                    self.voices[idx] = VoiceState { opening: false, ..v };
                }
            },
            Event::NoteOff { key } => {
                let idx: usize = key as usize;
                let v = self.voices[idx];
                self.voices[idx] = VoiceState { opening: false, ..v };
            },
        }
    }

    /// Render one sample: update the shared pressure once from the previous
    /// tick's apertures, step every active voice, and return the
    /// soft-clipped mono mix, which lies strictly inside (-1, 1).
    fn render_frame(&mut self) -> (m: i64)
        requires
            old(self).wf(),
        ensures
            final(self).wf(),
            final(self).params == old(self).params,
            final(self).sample_rate == old(self).sample_rate,
            final(self).dt == old(self).dt,
            final(self).alpha == old(self).alpha,
            final(self).active_indices@ == old(self).active_indices@,
            final(self).pressure as int == frame_pressure_s(
                old(self).voices@,
                old(self).active_indices@,
                old(self).pressure as int,
                old(self).params,
                old(self).dt as int,
            ),
            final(self).voices@ == frame_voices_s(
                old(self).voices@,
                old(self).active_indices@,
                old(self).pressure as int,
                old(self).params,
                old(self).dt as int,
                old(self).alpha as int,
            ),
            m as int == frame_mono_s(
                old(self).voices@,
                old(self).active_indices@,
                old(self).pressure as int,
                old(self).params,
                old(self).dt as int,
                old(self).alpha as int,
            ),
            -UNIT < m < UNIT,
    {
        let ghost g_voices = self.voices@;
        let ghost g_active = self.active_indices@;
        let ghost g_p0 = self.pressure as int;
        let ghost prm = self.params;
        let ghost g_dt = self.dt as int;
        let ghost g_alpha = self.alpha as int;
        proof {
            lemma_active_len(g_active);
        }
        let n: usize = self.active_indices.len();

        // Sum the apertures of the previous tick.
        let mut total: i64 = 0;
        let mut i: usize = 0;
        while i < n
            invariant
                i <= n,
                n <= 128,
                n == g_active.len(),
                self.active_indices@ == g_active,
                self.voices@ == g_voices,
                self.wf(),
                total as int == sum_aperture_s(g_voices, g_active, i as int),
                0 <= total <= (i as int) * (UNIT as int),
            decreases n - i,
        {
            let idx: usize = self.active_indices[i];
            let ap: i64 = self.voices[idx].valve_aperture;
            total = total + ap;
            i += 1;
        }

        // One pressure update per sample, before any per-voice work.
        proof {
            let u = UNIT as int;
            let refill = prm.refill_speed as int;
            let flow = prm.valve_flow_rate as int;
            let tot = total as int;
            crate::fixed::lemma_qmul_mag(refill, g_dt);
            lemma_mul_upper_bound(refill, 0xA_0000_0000, g_dt, DT_CAP as int);
            crate::fixed::lemma_qmul_mag(flow, tot);
            lemma_mul_upper_bound(flow, UNIT as int, tot, TOTAL_APERTURE_CAP as int);
            let f = qmul_s(flow, tot);
            crate::fixed::lemma_qmul_mag(f, g_dt);
            lemma_mul_upper_bound(f, 0x80_0000_0000, g_dt, DT_CAP as int);
        }
        let p1: i64 = update_pressure(self.pressure, &self.params, total, self.dt);
        proof {
            crate::model::lemma_pressure_band(g_p0, prm, total as int, g_dt);
        }
        self.pressure = p1;

        // Step every active voice and accumulate the mono mix.
        let mut mix: i64 = 0;
        let mut j: usize = 0;
        while j < n
            invariant
                j <= n,
                n <= 128,
                n == g_active.len(),
                self.active_indices@ == g_active,
                self.active_indices@.no_duplicates(),
                forall|t: int| 0 <= t < g_active.len() ==> (#[trigger] g_active[t]) < 128,
                self.params == prm,
                prm == default_params(),
                self.sample_rate == old(self).sample_rate,
                self.sample_rate >= MIN_SAMPLE_RATE,
                self.dt as int == g_dt,
                self.dt as int == calc_dt_s(self.sample_rate as int),
                1 <= self.dt <= DT_CAP,
                self.alpha as int == g_alpha,
                self.alpha as int == filter_alpha_s(prm.filter_cutoff as int, g_dt),
                0 <= self.alpha < UNIT,
                self.pressure == p1,
                0 <= p1 <= UNIT,
                p1 as int == frame_pressure_s(g_voices, g_active, g_p0, prm, g_dt),
                self.voices@.len() == 128,
                forall|k: int| 0 <= k < 128 ==> voice_wf(#[trigger] self.voices@[k], k),
                self.voices@ == voices_walk_s(g_voices, g_active, j as int, p1 as int, prm, g_dt, g_alpha),
                mix as int == mix_walk_s(g_voices, g_active, j as int, p1 as int, prm, g_dt, g_alpha),
                mag(mix as int) <= (j as int) * (UNIT as int),
            decreases n - j,
        {
            let idx: usize = self.active_indices[j];
            let v: VoiceState = self.voices[idx];
            let ap: i64 = update_aperture(
                v.valve_aperture,
                v.opening,
                v.attack,
                p1,
                self.params.spring_speed,
                self.dt,
            );
            let ghost stepped = voice_step_s(v, p1 as int, prm, g_dt, g_alpha);
            let ghost cont = contrib_s(v, p1 as int, prm, g_dt, g_alpha);
            if ap <= APERTURE_EPS {
                self.voices[idx] = VoiceState { valve_aperture: ap, ..v };
                proof {
                    assert(self.voices@[idx as int] == stepped);
                    assert(cont == 0);
                }
            } else {
                proof {
                    let u = UNIT as int;
                    let deficit = (prm.max_pressure as int) - (p1 as int);
                    crate::fixed::lemma_qmul_unit(deficit, prm.pitch_modulation_depth as int, u);
                }
                let f: i64 = pitch_sag(p1, &self.params, v.freq);
                proof {
                    crate::fixed::lemma_qmul_mag(f as int, g_dt);
                    lemma_mul_upper_bound(f as int, FREQ_CAP as int, g_dt, DT_CAP as int);
                }
                let inc: i64 = qmul(f, self.dt);
                proof {
                    let u = UNIT as int;
                    assert(u * (inc as int) <= (FREQ_CAP as int) * (DT_CAP as int));
                    assert(0 <= inc);
                    assert((inc as int) < u);
                }
                let mut ph: i64 = v.phase + inc;
                if ph > UNIT {
                    ph = ph - UNIT;
                }
                let raw: i64 = synthesize_pulse_wave(ph, self.params.pulse_duty_cycle);
                let filt: i64 = apply_chassis_filter(v.sample_history, self.alpha, raw);
                proof {
                    let u = UNIT as int;
                    crate::fixed::lemma_qmul_unit(filt as int, ap as int, u);
                    lemma_mul_upper_bound(mag(filt as int), u, mag(ap as int), u);
                }
                let c1: i64 = qmul(filt, ap);
                proof {
                    let u = UNIT as int;
                    crate::fixed::lemma_qmul_unit(c1 as int, p1 as int, u);
                    lemma_mul_upper_bound(mag(c1 as int), u, mag(p1 as int), u);
                }
                let part: i64 = qmul(c1, p1);
                mix = mix + part;
                self.voices[idx] = VoiceState {
                    valve_aperture: ap,
                    phase: ph,
                    sample_history: filt,
                    ..v
                };
                proof {
                    assert(self.voices@[idx as int] == stepped);
                    assert(part as int == cont);
                }
            }
            proof {
                let jj = j as int;
                assert(voices_walk_s(g_voices, g_active, jj + 1, p1 as int, prm, g_dt, g_alpha)
                    == voices_walk_s(g_voices, g_active, jj, p1 as int, prm, g_dt, g_alpha).update(
                    g_active[jj] as int,
                    voice_step_s(
                        voices_walk_s(g_voices, g_active, jj, p1 as int, prm, g_dt, g_alpha)[g_active[jj] as int],
                        p1 as int,
                        prm,
                        g_dt,
                        g_alpha,
                    ),
                ));
                assert(mix_walk_s(g_voices, g_active, jj + 1, p1 as int, prm, g_dt, g_alpha)
                    == mix_walk_s(g_voices, g_active, jj, p1 as int, prm, g_dt, g_alpha) + cont);
            }
            j += 1;
        }
        proof {
            assert(mag(mix as int) <= 128 * (UNIT as int));
        }
        soft_clip(mix)
    }

    /// Render `frames` frames into `out` as interleaved samples: every
    /// frame's soft-clipped mono value, strictly inside (-1, 1), is written
    /// identically to each of its `channels` slots. After the block the
    /// active-index set is compacted: exactly the keys whose voices are
    /// still opening or above the aperture threshold remain, in order.
    pub fn render_buffer(&mut self, out: &mut Vec<i64>, frames: usize, channels: usize)
        requires
            old(self).wf(),
            1 <= channels,
            frames * channels <= usize::MAX,
        ensures
            final(self).wf(),
            final(self).params == old(self).params,
            final(self).sample_rate == old(self).sample_rate,
            final(self).dt == old(self).dt,
            final(self).alpha == old(self).alpha,
            final(self).voices@ == run_voices_s(
                old(self).voices@,
                old(self).active_indices@,
                old(self).pressure as int,
                old(self).params,
                old(self).dt as int,
                old(self).alpha as int,
                frames as int,
            ),
            final(self).pressure as int == run_pressure_s(
                old(self).voices@,
                old(self).active_indices@,
                old(self).pressure as int,
                old(self).params,
                old(self).dt as int,
                old(self).alpha as int,
                frames as int,
            ),
            final(self).active_indices@ == compact_s(
                old(self).active_indices@,
                final(self).voices@,
            ),
            forall|k: usize| #[trigger]
                final(self).active_indices@.contains(k) <==> (old(
                    self,
                ).active_indices@.contains(k) && voice_alive(final(self).voices@[k as int])),
            final(out)@.len() == frames * channels,
            forall|fr: int, c: int|
                0 <= fr < frames && 0 <= c < channels ==> (#[trigger] final(out)@[fr * (
                channels as int) + c]) as int == run_monos_s(
                    old(self).voices@,
                    old(self).active_indices@,
                    old(self).pressure as int,
                    old(self).params,
                    old(self).dt as int,
                    old(self).alpha as int,
                    frames as int,
                )[fr],
            forall|t: int|
                0 <= t < final(out)@.len() ==> -(UNIT as int) < (#[trigger] final(out)@[t])
                    < UNIT as int,
            forall|fr: int, c: int|
                0 <= fr < frames && 0 <= c < channels ==> (#[trigger] final(out)@[fr * (
                channels as int) + c]) == final(out)@[fr * (channels as int)],
    {
        let ghost g_voices = self.voices@;
        let ghost g_active = self.active_indices@;
        let ghost g_p0 = self.pressure as int;
        let ghost prm = self.params;
        let ghost g_dt = self.dt as int;
        let ghost g_alpha = self.alpha as int;
        out.clear();
        let mut f: usize = 0;
        while f < frames
            invariant
                f <= frames,
                1 <= channels,
                frames * channels <= usize::MAX,
                self.wf(),
                self.params == prm,
                self.sample_rate == old(self).sample_rate,
                self.dt as int == g_dt,
                self.alpha as int == g_alpha,
                self.active_indices@ == g_active,
                self.voices@ == run_voices_s(g_voices, g_active, g_p0, prm, g_dt, g_alpha, f as int),
                self.pressure as int == run_pressure_s(g_voices, g_active, g_p0, prm, g_dt, g_alpha, f as int),
                out@.len() == f * channels,
                forall|fr: int, c: int|
                    0 <= fr < f && 0 <= c < channels ==> (#[trigger] out@[fr * (channels as int)
                        + c]) as int == run_monos_s(
                        g_voices,
                        g_active,
                        g_p0,
                        prm,
                        g_dt,
                        g_alpha,
                        f as int,
                    )[fr],
                forall|t: int|
                    0 <= t < out@.len() ==> -(UNIT as int) < (#[trigger] out@[t]) < UNIT as int,
            decreases frames - f,
        {
            let m: i64 = self.render_frame();
            let ghost monos_next = run_monos_s(
                g_voices,
                g_active,
                g_p0,
                prm,
                g_dt,
                g_alpha,
                f as int + 1,
            );
            proof {
                lemma_run_monos_len(g_voices, g_active, g_p0, prm, g_dt, g_alpha, f as int);
                lemma_run_monos_len(g_voices, g_active, g_p0, prm, g_dt, g_alpha, f as int + 1);
                assert(monos_next[f as int] == m as int);
            }
            let mut c: usize = 0;
            while c < channels
                invariant
                    c <= channels,
                    f < frames,
                    1 <= channels,
                    frames * channels <= usize::MAX,
                    out@.len() == f * channels + c,
                    -UNIT < m < UNIT,
                    monos_next == run_monos_s(g_voices, g_active, g_p0, prm, g_dt, g_alpha, f as int + 1),
                    monos_next[f as int] == m as int,
                    forall|fr: int, cc: int|
                        0 <= fr < f && 0 <= cc < channels ==> (#[trigger] out@[fr * (
                        channels as int) + cc]) as int == run_monos_s(
                            g_voices,
                            g_active,
                            g_p0,
                            prm,
                            g_dt,
                            g_alpha,
                            f as int,
                        )[fr],
                    forall|cc: int|
                        0 <= cc < c ==> (#[trigger] out@[(f as int) * (channels as int) + cc])
                            == m,
                    forall|t: int|
                        0 <= t < out@.len() ==> -(UNIT as int) < (#[trigger] out@[t]) < UNIT as int,
                decreases channels - c,
            {
                proof {
                    assert((f as int) * (channels as int) + (c as int) < (frames as int) * (
                    channels as int)) by (nonlinear_arith)
                        requires
                            0 <= f < frames,
                            0 <= c < channels,
                    ;
                }
                out.push(m);
                proof {
                    let chi = channels as int;
                    let fi = f as int;
                    assert forall|fr: int, cc: int| 0 <= fr < fi && 0 <= cc < channels implies (
                    #[trigger] out@[fr * chi + cc]) as int == run_monos_s(
                        g_voices,
                        g_active,
                        g_p0,
                        prm,
                        g_dt,
                        g_alpha,
                        fi,
                    )[fr] by {
                        assert(fr * chi + chi <= fi * chi) by (nonlinear_arith)
                            requires
                                fr < fi,
                                0 <= fr,
                                0 < chi,
                        ;
                        assert(0 <= fr * chi) by (nonlinear_arith)
                            requires
                                0 <= fr,
                                0 < chi,
                        ;
                        assert(fr * chi + cc < fi * chi);
                    }
                }
                c += 1;
            }
            f += 1;
            proof {
                let chi = channels as int;
                let fi = f as int;
                assert(fi * chi == (fi - 1) * chi + chi) by (nonlinear_arith);
                lemma_run_monos_len(g_voices, g_active, g_p0, prm, g_dt, g_alpha, fi - 1);
                lemma_run_monos_len(g_voices, g_active, g_p0, prm, g_dt, g_alpha, fi);
                assert forall|fr: int, cc: int| 0 <= fr < f && 0 <= cc < channels implies (
                #[trigger] out@[fr * chi + cc]) as int == run_monos_s(
                    g_voices,
                    g_active,
                    g_p0,
                    prm,
                    g_dt,
                    g_alpha,
                    fi,
                )[fr] by {
                    if fr < fi - 1 {
                        assert(fr * chi + chi <= (fi - 1) * chi) by (nonlinear_arith)
                            requires
                                fr < fi - 1,
                                0 <= fr,
                                0 < chi,
                        ;
                        assert(0 <= fr * chi) by (nonlinear_arith)
                            requires
                                0 <= fr,
                                0 < chi,
                        ;
                        assert(fr * chi + cc < (fi - 1) * chi);
                        assert(out@[fr * chi + cc] as int == run_monos_s(
                            g_voices,
                            g_active,
                            g_p0,
                            prm,
                            g_dt,
                            g_alpha,
                            fi - 1,
                        )[fr]);
                        assert(run_monos_s(g_voices, g_active, g_p0, prm, g_dt, g_alpha, fi)[fr]
                            == run_monos_s(g_voices, g_active, g_p0, prm, g_dt, g_alpha, fi - 1)[fr]);
                    } else {
                        assert(fr == fi - 1);
                        assert(out@[(fi - 1) * chi + cc] == m);
                        assert(monos_next[fi - 1] == m as int);
                    }
                }
            }
        }

        // Compact the active-index set: this is the sole removal point.
        let ghost g_end_voices = self.voices@;
        let n2: usize = self.active_indices.len();
        let mut kept: Vec<usize> = Vec::new();
        let mut t: usize = 0;
        while t < n2
            invariant
                t <= n2,
                n2 == g_active.len(),
                self.active_indices@ == g_active,
                self.voices@ == g_end_voices,
                self.wf(),
                kept@ == compact_s(g_active.take(t as int), g_end_voices),
            decreases n2 - t,
        {
            let idx: usize = self.active_indices[t];
            let v: VoiceState = self.voices[idx];
            if v.opening || v.valve_aperture > APERTURE_EPS {
                kept.push(idx);
            }
            proof {
                assert(g_active.take(t as int + 1).drop_last() =~= g_active.take(t as int));
                assert(g_active.take(t as int + 1).last() == g_active[t as int]);
            }
            t += 1;
        }
        proof {
            assert(g_active.take(n2 as int) =~= g_active);
            lemma_compact_props(g_active, g_end_voices);
            let chi = channels as int;
            assert forall|fr: int, c: int| 0 <= fr < frames && 0 <= c < channels implies (
            #[trigger] out@[fr * chi + c]) == out@[fr * chi] by {
                let monos = run_monos_s(
                    g_voices,
                    g_active,
                    g_p0,
                    prm,
                    g_dt,
                    g_alpha,
                    frames as int,
                );
                assert(out@[fr * chi + c] as int == monos[fr]);
                assert(out@[fr * chi + 0] as int == monos[fr]);
                assert(fr * chi + 0 == fr * chi);
            }
        }
        self.active_indices = kept;
    }
}

} // verus!
