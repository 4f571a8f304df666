//! The pool of voices: one oscillator for each sounding note.
//!
//! A key that goes down starts a voice unless its note is already
//! sounding; a key that goes up releases the voice of its note. The
//! base phase increment of a voice follows from the frequency of its
//! note and is kept strictly between 0 and pi radians. Each
//! frame is the soft-clipped sum of all voices, and a voice leaves the
//! pool once its oscillator has completed.

use vstd::prelude::*;
use vstd::arithmetic::power2::{lemma_pow2_pos, lemma_pow2_unfold, pow2};
use crate::clip::{soft_clip, soft_clip_value, CLIP_LIMIT};
use crate::fixed::ONE;
use crate::generator::adsr::{AdsrGenerator, Envelope};
use crate::generator::fm_synth::{
    lemma_after, FmSynthGenerator, FmSynthParams, Oscillator, HALF_TURN_RADIANS,
};
use crate::generator::{GeneratorState, SignalGenerator};
use crate::pipeline::parser::{KeyDirection, Note};

verus! {

/// A full turn in radians, in units of 2^-32: 2 * pi * 2^32, rounded to
/// the nearest.
pub const FULL_TURN_RADIANS: u64 = 26986075409;

/// The frequency of each pitch class as a multiple of the frequency of
/// C in the same octave, in units of 1/65536: 2^(semitone / 12), rounded
/// to the nearest.
pub const SEMITONE_RATIO: [u32; 12] = [
    65536, 69433, 73562, 77936, 82570, 87480,
    92682, 98193, 104032, 110218, 116772, 123715,
];

/// The longest sustain of a voice in seconds: a voice waits this long
/// for its key to go up.
pub const SUSTAIN_SECONDS: u64 = 3600;

/// The settings that all voices share.
#[derive(Debug, Clone)]
pub struct VoiceConfig {
    /// The modulator bank and the modulation depth of every voice; the
    /// phase increment in it is replaced by that of each note.
    pub fm_params: FmSynthParams,
    /// The lengths of the attack, the decay and the release in samples.
    pub attack_samples: usize,
    pub decay_samples: usize,
    /// The sustain level, in units of 1/65536.
    pub sustain_level: i32,
    pub release_samples: usize,
}

impl Default for VoiceConfig {
    /// Three modulators on the harmonics 2, 5 and 9 with the weights 1,
    /// 2 and 1 at full depth; 4410 samples of attack, 8820 of decay,
    /// a sustain at 0.7 and 13230 samples of release.
    fn default() -> (config: Self)
        ensures
            config.fm_params.harmonics@ == seq![2usize, 5usize, 9usize],
            config.fm_params.amps@ == seq![65536i32, 131072i32, 65536i32],
            config.fm_params.phase_per_sample == 429496730,
            config.fm_params.mod_depth == 65536,
            config.attack_samples == 4410,
            config.decay_samples == 8820,
            config.sustain_level == 45875,
            config.release_samples == 13230,
            config.fm_params.well_formed(),
    {
        let mut harmonics: Vec<usize> = Vec::new();
        harmonics.push(2);
        harmonics.push(5);
        harmonics.push(9);
        let mut amps: Vec<i32> = Vec::new();
        amps.push(65536);
        amps.push(131072);
        amps.push(65536);
        assert(harmonics@ =~= seq![2usize, 5usize, 9usize]);
        assert(amps@ =~= seq![65536i32, 131072i32, 65536i32]);
        VoiceConfig {
            fm_params: FmSynthParams::new(harmonics, amps, 429496730, 65536),
            attack_samples: 4410,
            decay_samples: 8820,
            sustain_level: 45875,
            release_samples: 13230,
        }
    }
}

/// `value` doubled `octave` times, or the largest `u64` where that is
/// larger.
pub open spec fn raised(value: int, octave: int) -> int {
    let exact = value * pow2(octave as nat);
    if exact > u64::MAX {
        u64::MAX as int
    } else {
        exact
    }
}

/// The frequency of a pitch class in octave 0, in units of 1/65536 Hz:
/// half the base frequency, which is that of C in octave 1, times the
/// ratio of the pitch class.
pub open spec fn lowest_frequency(base_frequency: int, semitone: int) -> int {
    (base_frequency * SEMITONE_RATIO[semitone]) / 131072
}

/// The frequency of `note` in units of 1/65536 Hz: the base frequency
/// times 2^(octave - 1 + semitone / 12).
pub open spec fn frequency_of(base_frequency: int, note: Note) -> int {
    raised(lowest_frequency(base_frequency, note.pitch_class.spec_semitone()), note.octave as int)
}

/// The phase increment of a pitch class in octave 0, in units of 2^-32
/// radians per sample: 2 * pi times its frequency by the sample rate.
pub open spec fn lowest_increment(base_frequency: int, sample_rate: int, semitone: int) -> int {
    (FULL_TURN_RADIANS * base_frequency * SEMITONE_RATIO[semitone]) / (8589934592 * sample_rate)
}

/// The phase increment that the frequency of `note` gives, in units of
/// 2^-32 radians per sample: 2 * pi times its frequency by the sample
/// rate, or the largest `u64` where that is larger. An octave up doubles
/// it.
pub open spec fn derived_increment(base_frequency: int, sample_rate: int, note: Note) -> int {
    raised(
        lowest_increment(base_frequency, sample_rate, note.pitch_class.spec_semitone()),
        note.octave as int,
    )
}

/// The increment strictly between 0 and pi radians that is nearest to
/// `increment`.
pub open spec fn valid_increment(increment: int) -> int {
    if increment < 1 {
        1
    } else if increment >= HALF_TURN_RADIANS {
        HALF_TURN_RADIANS - 1
    } else {
        increment
    }
}

/// The base phase increment of the voice of `note`, in units of 2^-32
/// radians per sample: the increment that its frequency gives, brought
/// strictly between 0 and pi radians. So a note at or above half the
/// sample rate sounds just below it, and a note of no frequency moves
/// on by the least increment.
pub open spec fn increment_of(base_frequency: int, sample_rate: int, note: Note) -> int {
    valid_increment(derived_increment(base_frequency, sample_rate, note))
}

/// The longest sustain of a voice in samples.
pub open spec fn longest_sustain(sample_rate: int) -> int {
    if sample_rate * SUSTAIN_SECONDS > usize::MAX {
        usize::MAX as int
    } else {
        sample_rate * SUSTAIN_SECONDS
    }
}

/// Computes [`raised`].
fn raise(value: u64, octave: u8) -> (result: u64)
    ensures
        result == raised(value as int, octave as int),
{
    let mut result: u64 = value;
    let mut k: u8 = 0;
    proof {
        lemma_pow2_unfold(1);
        assert(pow2(0) == 1) by {
            vstd::arithmetic::power2::lemma2_to64();
        }
    }
    while k < octave
        invariant
            k <= octave,
            result == raised(value as int, k as int),
        decreases octave - k,
    {
        proof {
            lemma_pow2_unfold((k + 1) as nat);
            lemma_pow2_pos(k as nat);
            let p = pow2(k as nat) as int;
            assert(value * (2 * p) == 2 * (value * p)) by (nonlinear_arith);
        }
        result = if result > u64::MAX / 2 {
            u64::MAX
        } else {
            result * 2
        };
        k += 1;
    }
    result
}

/// The state of a voice as mathematics sees it.
pub struct VoiceModel {
    pub note: Note,
    pub synth: Oscillator,
    /// Whether the key of the voice has gone up.
    pub is_releasing: bool,
}

impl VoiceModel {
    /// Whether the voice sounds `note` and its key is still down.
    pub open spec fn sounds(self, note: Note) -> bool {
        self.note == note && !self.is_releasing
    }

    /// The voice after its key has gone up: both envelopes are asked
    /// for their release.
    pub open spec fn released(self) -> VoiceModel {
        VoiceModel {
            synth: Oscillator {
                mod_env: Envelope { pending_note_off: true, ..self.synth.mod_env },
                wav_env: Envelope { pending_note_off: true, ..self.synth.wav_env },
                ..self.synth
            },
            is_releasing: true,
            ..self
        }
    }

    /// The voice after a frame of `length` samples.
    pub open spec fn rendered(self, length: nat) -> VoiceModel {
        VoiceModel { synth: self.synth.begin_frame().after(length), ..self }
    }
}

/// The index of the first of `voices` from `from` on that sounds `note`;
/// the number of voices where none does.
pub open spec fn first_sounding(voices: Seq<VoiceModel>, note: Note, from: int) -> int
    decreases voices.len() - from,
{
    if from < 0 || from >= voices.len() {
        voices.len() as int
    } else if voices[from].sounds(note) {
        from
    } else {
        first_sounding(voices, note, from + 1)
    }
}

/// The sum of sample number `index` of the next frame over the first
/// `count` of `voices`.
pub open spec fn mix(voices: Seq<VoiceModel>, index: nat, count: int) -> int
    decreases count,
{
    if count <= 0 {
        0
    } else {
        mix(voices, index, count - 1) + voices[count - 1].synth.begin_frame().sample_at(index)
    }
}

/// Those of `voices` whose oscillator has not completed, in their order.
pub open spec fn survivors(voices: Seq<VoiceModel>) -> Seq<VoiceModel>
    decreases voices.len(),
{
    if voices.len() == 0 {
        voices
    } else if voices[0].synth.complete() {
        survivors(voices.drop_first())
    } else {
        seq![voices[0]] + survivors(voices.drop_first())
    }
}

/// The state of a pool of voices as mathematics sees it.
pub struct VoicePool {
    /// The voices, oldest first.
    pub voices: Seq<VoiceModel>,
    pub harmonics: Seq<usize>,
    pub amps: Seq<i32>,
    pub mod_depth: int,
    pub attack_samples: int,
    pub decay_samples: int,
    pub sustain_level: int,
    pub release_samples: int,
    /// The frequency of C in octave 1, in units of 1/65536 Hz.
    pub base_frequency: int,
    /// The sample rate in Hz, at least 1.
    pub sample_rate: int,
}

impl VoicePool {
    /// The invariant of a pool: every oscillator is well formed, no two
    /// voices whose keys are down sound the same note, and the settings
    /// make a valid oscillator.
    pub open spec fn well_formed(self) -> bool {
        &&& forall|i: int| 0 <= i < self.voices.len() ==> (#[trigger] self.voices[i]).synth.well_formed()
        &&& forall|i: int, j: int|
            0 <= i < j < self.voices.len() && !(#[trigger] self.voices[i]).is_releasing && !(
            #[trigger] self.voices[j]).is_releasing ==> self.voices[i].note != self.voices[j].note
        &&& self.harmonics.len() == self.amps.len()
        &&& 0 <= self.mod_depth <= u32::MAX
        &&& 0 <= self.attack_samples <= usize::MAX
        &&& 0 <= self.decay_samples <= usize::MAX
        &&& 0 <= self.release_samples <= usize::MAX
        &&& 0 <= self.base_frequency <= u32::MAX
        &&& 1 <= self.sample_rate <= u32::MAX
    }

    /// The envelope of a new voice: it starts from silence and sustains
    /// until its key goes up.
    pub open spec fn fresh_envelope(self) -> Envelope {
        Envelope::initial(
            0,
            self.attack_samples,
            self.decay_samples,
            self.sustain_level,
            longest_sustain(self.sample_rate),
            self.release_samples,
        )
    }

    /// The voice that a key going down starts for `note`: the shared
    /// modulator bank and depth, the base phase increment of the note,
    /// which lies strictly between 0 and pi radians, and two envelopes
    /// at their start.
    pub open spec fn fresh_voice(self, note: Note) -> VoiceModel {
        VoiceModel {
            note,
            synth: Oscillator {
                harmonics: self.harmonics,
                amps: self.amps,
                phase_per_sample: increment_of(self.base_frequency, self.sample_rate, note),
                mod_depth: self.mod_depth,
                mod_env: self.fresh_envelope(),
                wav_env: self.fresh_envelope(),
                phase: 0,
                sample_count: 0,
            },
            is_releasing: false,
        }
    }

    /// Whether a voice of the pool sounds `note` with its key down.
    pub open spec fn sounding(self, note: Note) -> bool {
        exists|i: int| 0 <= i < self.voices.len() && (#[trigger] self.voices[i]).sounds(note)
    }

    /// The pool after a key event. A key that goes down starts a voice
    /// unless one sounds its note already; a key that goes up releases
    /// the voice that sounds its note, if there is one.
    pub open spec fn handle(self, note: Note, direction: KeyDirection) -> VoicePool {
        let found = first_sounding(self.voices, note, 0);
        match direction {
            KeyDirection::Down => if found < self.voices.len() {
                self
            } else {
                VoicePool { voices: self.voices.push(self.fresh_voice(note)), ..self }
            },
            KeyDirection::Up => if found < self.voices.len() {
                VoicePool {
                    voices: self.voices.update(found, self.voices[found].released()),
                    ..self
                }
            } else {
                self
            },
        }
    }

    /// The pool after a frame of `length` samples: every voice has
    /// rendered the frame, and those that completed have left.
    pub open spec fn render(self, length: nat) -> VoicePool {
        VoicePool {
            voices: survivors(self.voices.map_values(|v: VoiceModel| v.rendered(length))),
            ..self
        }
    }

    /// Sample number `index` of the next frame: the sum of all voices,
    /// softly clipped.
    pub open spec fn sample_at(self, index: nat) -> int {
        soft_clip_value(mix(self.voices, index, self.voices.len() as int))
    }

    /// The pool with every voice released whose key is down.
    pub open spec fn all_released(self) -> VoicePool {
        VoicePool {
            voices: self.voices.map_values(
                |v: VoiceModel|
                    if v.is_releasing {
                        v
                    } else {
                        v.released()
                    },
            ),
            ..self
        }
    }
}

/// Where none of the voices from `from` up to `to` sounds `note`, the
/// first that does is found from `to` on.
pub proof fn lemma_first_sounding_skips(voices: Seq<VoiceModel>, note: Note, from: int, to: int)
    requires
        0 <= from <= to <= voices.len(),
        forall|k: int| from <= k < to ==> !(#[trigger] voices[k]).sounds(note),
    ensures
        first_sounding(voices, note, from) == first_sounding(voices, note, to),
    decreases to - from,
{
    if from < to {
        lemma_first_sounding_skips(voices, note, from + 1, to);
    }
}

/// The survivors of some voices are no more than the voices.
pub proof fn lemma_survivors_length(voices: Seq<VoiceModel>)
    ensures
        survivors(voices).len() <= voices.len(),
        forall|i: int|
            0 <= i < survivors(voices).len() ==> !(#[trigger] survivors(voices)[i]).synth.complete(),
        (forall|i: int| 0 <= i < voices.len() ==> !(#[trigger] voices[i]).synth.complete())
            ==> survivors(voices) == voices,
    decreases voices.len(),
{
    if voices.len() > 0 {
        let rest = voices.drop_first();
        lemma_survivors_length(rest);
        if !voices[0].synth.complete() {
            let kept = seq![voices[0]] + survivors(rest);
            assert forall|i: int| 0 <= i < kept.len() implies !(#[trigger] kept[i]).synth.complete() by {
                if i > 0 {
                    assert(kept[i] == survivors(rest)[i - 1]);
                }
            }
            if forall|i: int| 0 <= i < voices.len() ==> !(#[trigger] voices[i]).synth.complete() {
                assert forall|i: int| 0 <= i < rest.len() implies !(#[trigger] rest[i]).synth.complete() by {
                    assert(rest[i] == voices[i + 1]);
                }
                assert(kept =~= voices);
            }
        } else {
            assert(!(forall|i: int| 0 <= i < voices.len() ==> !(#[trigger] voices[i]).synth.complete()));
        }
    }
}

/// The voice that a key going down starts is well formed: its base
/// phase increment lies strictly between 0 and pi radians, whatever the
/// note, the base frequency and the sample rate, and its envelopes
/// start from silence with the settings of the pool.
pub proof fn lemma_fresh_voice(pool: VoicePool, note: Note)
    requires
        pool.well_formed(),
    ensures
        pool.fresh_voice(note).synth.well_formed(),
        0 < pool.fresh_voice(note).synth.phase_per_sample < HALF_TURN_RADIANS,
        pool.fresh_voice(note).sounds(note),
{
}

/// Notes an octave apart start voices whose base phase increments
/// differ by exactly the factor 2, and that are alike in all else. This
/// is not so where the increments are brought between 0 and pi: where
/// the frequency of the lower note gives no increment at all, or that of
/// the higher one gives pi or more.
pub proof fn lemma_octave_doubles(pool: VoicePool, low: Note, high: Note)
    requires
        pool.well_formed(),
        low.pitch_class == high.pitch_class,
        high.octave == low.octave + 1,
        0 < derived_increment(pool.base_frequency, pool.sample_rate, low),
        derived_increment(pool.base_frequency, pool.sample_rate, high) < HALF_TURN_RADIANS,
    ensures
        pool.fresh_voice(high).synth == (Oscillator {
            phase_per_sample: 2 * pool.fresh_voice(low).synth.phase_per_sample,
            ..pool.fresh_voice(low).synth
        }),
{
    let lowest = lowest_increment(
        pool.base_frequency,
        pool.sample_rate,
        low.pitch_class.spec_semitone(),
    );
    lemma_pow2_unfold(high.octave as nat);
    lemma_pow2_pos(low.octave as nat);
    let p = pow2(low.octave as nat) as int;
    assert(lowest * (2 * p) == 2 * (lowest * p)) by (nonlinear_arith);
}

/// Key events keep the pool well formed: every oscillator in it is well
/// formed, and no two voices whose keys are down sound the same note.
pub proof fn lemma_events_keep_the_pool_well_formed(
    pool: VoicePool,
    note: Note,
    direction: KeyDirection,
)
    requires
        pool.well_formed(),
    ensures
        pool.handle(note, direction).well_formed(),
{
    lemma_first_sounding(pool.voices, note, 0);
    lemma_fresh_voice(pool, note);
    let after = pool.handle(note, direction).voices;
    let found = first_sounding(pool.voices, note, 0);
    assert forall|i: int| 0 <= i < after.len() implies (#[trigger] after[i]).synth.well_formed() by {
        if i < pool.voices.len() {
            assert(pool.voices[i].synth.well_formed());
        }
    }
    assert forall|i: int, j: int|
        0 <= i < j < after.len() && !(#[trigger] after[i]).is_releasing && !(
        #[trigger] after[j]).is_releasing implies after[i].note != after[j].note by {
        assert(!pool.voices[i].is_releasing);
        if j < pool.voices.len() {
            assert(!pool.voices[j].is_releasing);
        } else {
            assert(!pool.voices[i].sounds(note));
        }
    }
}

/// The first voice that sounds `note` lies where it is looked for, it
/// does sound the note, and no voice before it does.
pub proof fn lemma_first_sounding(voices: Seq<VoiceModel>, note: Note, from: int)
    requires
        0 <= from <= voices.len(),
    ensures
        from <= first_sounding(voices, note, from) <= voices.len(),
        first_sounding(voices, note, from) < voices.len() ==> voices[first_sounding(
            voices,
            note,
            from,
        )].sounds(note),
        forall|k: int|
            from <= k < first_sounding(voices, note, from) ==> !(#[trigger] voices[k]).sounds(note),
    decreases voices.len() - from,
{
    if from < voices.len() && !voices[from].sounds(note) {
        lemma_first_sounding(voices, note, from + 1);
    }
}

/// A key that goes down on a note that is sounding changes nothing.
pub proof fn lemma_key_down_on_sounding_note(pool: VoicePool, note: Note)
    requires
        pool.sounding(note),
    ensures
        pool.handle(note, KeyDirection::Down) == pool,
{
    lemma_first_sounding(pool.voices, note, 0);
}

/// A key that goes down on a note that is not sounding adds one voice,
/// the last of the pool, which sounds the note from its first sample.
pub proof fn lemma_key_down_starts_a_voice(pool: VoicePool, note: Note)
    requires
        !pool.sounding(note),
    ensures
        pool.handle(note, KeyDirection::Down).voices == pool.voices.push(pool.fresh_voice(note)),
{
    lemma_first_sounding(pool.voices, note, 0);
}

/// A key that goes up on a note that no voice sounds with its key down
/// changes nothing.
pub proof fn lemma_key_up_without_voice(pool: VoicePool, note: Note)
    requires
        !pool.sounding(note),
    ensures
        pool.handle(note, KeyDirection::Up) == pool,
{
    lemma_first_sounding(pool.voices, note, 0);
}

/// A key that goes up on a note that is sounding releases the first
/// voice that sounds it, and leaves all other voices as they are.
pub proof fn lemma_key_up_releases(pool: VoicePool, note: Note)
    requires
        pool.sounding(note),
    ensures
        ({
            let found = first_sounding(pool.voices, note, 0);
            &&& 0 <= found < pool.voices.len()
            &&& pool.voices[found].sounds(note)
            &&& pool.handle(note, KeyDirection::Up).voices == pool.voices.update(
                found,
                pool.voices[found].released(),
            )
        }),
{
    lemma_first_sounding(pool.voices, note, 0);
}

/// No key event takes a voice out of the pool: every voice stays where
/// it was, with its note.
pub proof fn lemma_events_keep_every_voice(pool: VoicePool, note: Note, direction: KeyDirection)
    ensures
        pool.handle(note, direction).voices.len() >= pool.voices.len(),
        pool.handle(note, direction).voices.len() <= pool.voices.len() + 1,
        forall|i: int|
            0 <= i < pool.voices.len() ==> (#[trigger] pool.handle(note, direction).voices[i]).note
                == pool.voices[i].note,
{
    lemma_first_sounding(pool.voices, note, 0);
}

/// A frame takes out of the pool the voices whose oscillator completed
/// in it, and no others: the pool shrinks only where one completed.
pub proof fn lemma_voices_leave_on_completion(pool: VoicePool, length: nat)
    ensures
        pool.render(length).voices.len() <= pool.voices.len(),
        (forall|i: int|
            0 <= i < pool.voices.len() ==> !(#[trigger] pool.voices[i]).rendered(
                length,
            ).synth.complete()) ==> pool.render(length).voices.len() == pool.voices.len(),
        forall|i: int|
            0 <= i < pool.render(length).voices.len() ==> !(#[trigger] pool.render(
                length,
            ).voices[i]).synth.complete(),
{
    let rendered = pool.voices.map_values(|v: VoiceModel| v.rendered(length));
    lemma_survivors_length(rendered);
    if forall|i: int|
        0 <= i < pool.voices.len() ==> !(#[trigger] pool.voices[i]).rendered(length).synth.complete() {
        assert forall|i: int| 0 <= i < rendered.len() implies !(#[trigger] rendered[i]).synth.complete() by {
            assert(rendered[i] == pool.voices[i].rendered(length));
        }
    }
}

/// A sounding note with its oscillator.
struct Voice {
    note: Note,
    synth: FmSynthGenerator,
    is_releasing: bool,
}

impl View for Voice {
    type V = VoiceModel;

    closed spec fn view(&self) -> VoiceModel {
        VoiceModel { note: self.note, synth: self.synth@, is_releasing: self.is_releasing }
    }
}

impl Voice {
    /// Renders the next frame of the voice into `buffer` and says
    /// whether its oscillator has completed.
    fn render(&mut self, buffer: &mut [i32]) -> (completed: bool)
        requires
            old(self)@.synth.well_formed(),
        ensures
            final(self)@ == old(self)@.rendered(old(buffer)@.len()),
            final(self)@.synth.well_formed(),
            completed == final(self)@.synth.complete(),
            final(buffer)@.len() == old(buffer)@.len(),
            forall|m: int|
                0 <= m < final(buffer)@.len() ==> #[trigger] final(buffer)@[m] == old(self)@.synth
                    .begin_frame().sample_at(m as nat),
            forall|m: int|
                0 <= m < final(buffer)@.len() ==> -ONE <= #[trigger] final(buffer)@[m] <= ONE,
    {
        match self.synth.process(buffer) {
            GeneratorState::Complete => true,
            GeneratorState::Running => false,
        }
    }

    /// Releases the voice.
    fn release(&mut self)
        ensures
            final(self)@ == old(self)@.released(),
    {
        self.synth.note_off();
        self.is_releasing = true;
    }

    /// Whether the voice sounds `note` and its key is still down.
    fn sounds(&self, note: &Note) -> (sounding: bool)
        ensures
            sounding == self@.sounds(*note),
    {
        self.note == *note && !self.is_releasing
    }
}

/// The mathematical states of some voices.
spec fn models(voices: Seq<Voice>) -> Seq<VoiceModel> {
    Seq::new(voices.len(), |i: int| voices[i]@)
}

/// Adds the samples of `frame` to `sums`, which hold the sums of
/// `voices` frames before.
fn accumulate(sums: &mut Vec<i128>, frame: &[i32], voices: usize)
    requires
        old(sums)@.len() == frame@.len(),
        forall|m: int|
            0 <= m < frame@.len() ==> -ONE * voices <= #[trigger] old(sums)@[m] <= ONE * voices,
        forall|m: int| 0 <= m < frame@.len() ==> -ONE <= #[trigger] frame@[m] <= ONE,
    ensures
        final(sums)@.len() == old(sums)@.len(),
        forall|m: int|
            0 <= m < frame@.len() ==> #[trigger] final(sums)@[m] == old(sums)@[m] + frame@[m],
        forall|m: int|
            0 <= m < frame@.len() ==> -ONE * (voices + 1) <= #[trigger] final(sums)@[m] <= ONE * (
            voices + 1),
{
    let n = frame.len();
    let mut j: usize = 0;
    while j < n
        invariant
            j <= n,
            n == frame@.len(),
            sums@.len() == n,
            forall|m: int| 0 <= m < j ==> #[trigger] sums@[m] == old(sums)@[m] + frame@[m],
            forall|m: int| j <= m < n ==> #[trigger] sums@[m] == old(sums)@[m],
            forall|m: int| 0 <= m < n ==> -ONE * voices <= #[trigger] old(sums)@[m] <= ONE * voices,
            forall|m: int| 0 <= m < n ==> -ONE <= #[trigger] frame@[m] <= ONE,
        decreases n - j,
    {
        let sum = sums[j] + frame[j] as i128;
        sums[j] = sum;
        j += 1;
    }
}

/// A pool of voices with the settings that they share.
pub struct VoiceManager {
    config: VoiceConfig,
    active_voices: Vec<Voice>,
    base_frequency: u32,
    sample_rate: u32,
}

impl View for VoiceManager {
    type V = VoicePool;

    closed spec fn view(&self) -> VoicePool {
        VoicePool {
            voices: models(self.active_voices@),
            harmonics: self.config.fm_params.harmonics@,
            amps: self.config.fm_params.amps@,
            mod_depth: self.config.fm_params.mod_depth as int,
            attack_samples: self.config.attack_samples as int,
            decay_samples: self.config.decay_samples as int,
            sustain_level: self.config.sustain_level as int,
            release_samples: self.config.release_samples as int,
            base_frequency: self.base_frequency as int,
            sample_rate: self.sample_rate as int,
        }
    }
}

impl VoiceManager {
    /// An empty pool. `base_frequency` is the frequency of C in octave 1
    /// in units of 1/65536 Hz; a sample rate of 0 becomes 1.
    pub fn new(config: VoiceConfig, base_frequency: u32, sample_rate: u32) -> (manager: Self)
        requires
            config.fm_params.well_formed(),
        ensures
            manager@ == (VoicePool {
                voices: Seq::empty(),
                harmonics: config.fm_params.harmonics@,
                amps: config.fm_params.amps@,
                mod_depth: config.fm_params.mod_depth as int,
                attack_samples: config.attack_samples as int,
                decay_samples: config.decay_samples as int,
                sustain_level: config.sustain_level as int,
                release_samples: config.release_samples as int,
                base_frequency: base_frequency as int,
                sample_rate: if sample_rate < 1 {
                    1
                } else {
                    sample_rate as int
                },
            }),
            manager@.well_formed(),
    {
        let manager = VoiceManager {
            config,
            active_voices: Vec::new(),
            base_frequency,
            sample_rate: if sample_rate < 1 {
                1
            } else {
                sample_rate
            },
        };
        assert(manager@.voices =~= Seq::empty());
        manager
    }

    /// The frequency of `note` in units of 1/65536 Hz, or the largest
    /// `u64` where it is larger.
    pub fn note_frequency(&self, note: &Note) -> (frequency: u64)
        ensures
            frequency == frequency_of(self@.base_frequency, *note),
    {
        let ratio = SEMITONE_RATIO[note.pitch_class.semitone() as usize] as u64;
        assert((self.base_frequency as u64) * ratio <= 0xffff_ffff * 0xffff_ffff)
            by (nonlinear_arith)
            requires
                self.base_frequency as u64 <= 0xffff_ffff,
                ratio <= 0xffff_ffff,
        ;
        raise(((self.base_frequency as u64) * ratio) / 131072, note.octave)
    }

    /// The base phase increment of the voice of `note` in units of 2^-32
    /// radians per sample: 2 * pi times the frequency of the note by the
    /// sample rate, brought strictly between 0 and pi radians.
    pub fn phase_per_sample(&self, note: &Note) -> (increment: u64)
        requires
            self@.well_formed(),
        ensures
            increment == increment_of(self@.base_frequency, self@.sample_rate, *note),
            0 < increment < HALF_TURN_RADIANS,
    {
        let ratio = SEMITONE_RATIO[note.pitch_class.semitone() as usize] as u128;
        let base = self.base_frequency as u128;
        let turn = FULL_TURN_RADIANS as u128;
        assert(turn * base <= 26986075409 * 0xffff_ffff && turn * base * ratio <= 26986075409
            * 0xffff_ffff * 131072) by (nonlinear_arith)
            requires
                turn == 26986075409,
                base <= 0xffff_ffff,
                ratio <= 131072,
        ;
        let rate = self.sample_rate as u128;
        assert(8589934592 * rate <= 8589934592 * 0xffff_ffff) by (nonlinear_arith)
            requires
                rate <= 0xffff_ffff,
        ;
        let divisor: u128 = 8589934592u128 * rate;
        let numerator: u128 = turn * base * ratio;
        assert(numerator / divisor <= 0xffff_ffff_ffff_ffff) by (nonlinear_arith)
            requires
                numerator <= 26986075409 * 0xffff_ffff * 131072,
                divisor >= 8589934592,
        ;
        let derived = raise((numerator / divisor) as u64, note.octave);
        if derived < 1 {
            1
        } else if derived >= HALF_TURN_RADIANS {
            HALF_TURN_RADIANS - 1
        } else {
            derived
        }
    }

    /// A new oscillator for `note`, with two envelopes that start from
    /// silence and sustain until the key goes up.
    fn create_synth(&self, note: &Note) -> (synth: FmSynthGenerator)
        requires
            self@.well_formed(),
        ensures
            synth@ == self@.fresh_voice(*note).synth,
            synth@.well_formed(),
    {
        let fm_params = self.config.fm_params.with_phase_per_sample(self.phase_per_sample(note));
        assert((self.sample_rate as u64) * SUSTAIN_SECONDS <= 0xffff_ffff * 3600)
            by (nonlinear_arith)
            requires
                self.sample_rate as u64 <= 0xffff_ffff,
                SUSTAIN_SECONDS == 3600,
        ;
        let seconds: u64 = (self.sample_rate as u64) * SUSTAIN_SECONDS;
        let max_sustain: usize = if seconds > usize::MAX as u64 {
            usize::MAX
        } else {
            seconds as usize
        };
        let mod_env = AdsrGenerator::new(
            0,
            self.config.attack_samples,
            self.config.decay_samples,
            self.config.sustain_level,
            max_sustain,
            self.config.release_samples,
        );
        let wav_env = AdsrGenerator::new(
            0,
            self.config.attack_samples,
            self.config.decay_samples,
            self.config.sustain_level,
            max_sustain,
            self.config.release_samples,
        );
        FmSynthGenerator::new(fm_params, mod_env, wav_env)
    }

    /// Handles a key event. A key that goes down starts a voice for its
    /// note unless one sounds it already; a key that goes up releases
    /// the voice that sounds its note, if there is one. No event takes a
    /// voice out of the pool.
    #[verifier::rlimit(50)]
    pub fn handle_event(&mut self, note: &Note, direction: KeyDirection)
        requires
            old(self)@.well_formed(),
        ensures
            final(self)@ == old(self)@.handle(*note, direction),
            final(self)@.well_formed(),
            final(self)@.voices.len() >= old(self)@.voices.len(),
    {
        let count = self.active_voices.len();
        let mut found: usize = 0;
        while found < count
            invariant
                *self == *old(self),
                count == self.active_voices@.len(),
                found <= count,
                forall|k: int| 0 <= k < found ==> !(#[trigger] self.active_voices@[k])@.sounds(*note),
            ensures
                found <= count,
                forall|k: int| 0 <= k < found ==> !(#[trigger] self.active_voices@[k])@.sounds(*note),
                found < count ==> self.active_voices@[found as int]@.sounds(*note),
            decreases count - found,
        {
            if self.active_voices[found].sounds(note) {
                break ;
            }
            found += 1;
        }
        proof {
            assert forall|k: int| 0 <= k < found implies !(#[trigger] self@.voices[k]).sounds(
                *note,
            ) by {
                assert(self@.voices[k] == self.active_voices@[k]@);
            }
            lemma_first_sounding_skips(self@.voices, *note, 0, found as int);
            if found < count {
                assert(self@.voices[found as int] == self.active_voices@[found as int]@);
            }
        }
        match direction {
            KeyDirection::Down => {
                if found == count {
                    let synth = self.create_synth(note);
                    self.active_voices.push(Voice { note: *note, synth, is_releasing: false });
                    assert(self@.voices =~= old(self)@.voices.push(old(self)@.fresh_voice(*note)));
                }
            },
            KeyDirection::Up => {
                if found < count {
                    self.active_voices[found].release();
                    assert(self@.voices =~= old(self)@.voices.update(
                        found as int,
                        old(self)@.voices[found as int].released(),
                    ));
                }
            },
        }
        proof {
            lemma_events_keep_the_pool_well_formed(old(self)@, *note, direction);
        }
    }

    /// Renders one frame: each sample is the soft-clipped sum of all
    /// voices. Afterwards every voice has advanced by the frame, and the
    /// voices whose oscillator completed in it have left the pool; no
    /// other voice leaves.
    #[verifier::rlimit(50)]
    pub fn process_frame(&mut self, buffer: &mut [i32])
        requires
            old(self)@.well_formed(),
        ensures
            final(self)@ == old(self)@.render(old(buffer)@.len()),
            final(self)@.well_formed(),
            final(self)@.voices.len() <= old(self)@.voices.len(),
            final(buffer)@.len() == old(buffer)@.len(),
            forall|j: int|
                0 <= j < final(buffer)@.len() ==> #[trigger] final(buffer)@[j] == old(self)@.sample_at(
                    j as nat,
                ),
            forall|j: int|
                0 <= j < final(buffer)@.len() ==> -CLIP_LIMIT <= #[trigger] final(buffer)@[j]
                    <= CLIP_LIMIT,
    {
        let n = buffer.len();
        let count = self.active_voices.len();
        let ghost before = self@.voices;
        let ghost rendered = before.map_values(|v: VoiceModel| v.rendered(n as nat));
        let mut sums: Vec<i128> = vec![0i128; n];
        let mut voice_buffer: Vec<i32> = vec![0i32; n];
        let mut completed: Vec<bool> = Vec::new();
        let mut i: usize = 0;
        while i < count
            invariant
                i <= count,
                count == self.active_voices@.len(),
                before == old(self)@.voices,
                before.len() == count,
                old(self)@.well_formed(),
                rendered == before.map_values(|v: VoiceModel| v.rendered(n as nat)),
                self.config == old(self).config,
                self.base_frequency == old(self).base_frequency,
                self.sample_rate == old(self).sample_rate,
                sums@.len() == n,
                voice_buffer@.len() == n,
                completed@.len() == i,
                forall|k: int| 0 <= k < i ==> (#[trigger] self.active_voices@[k])@ == rendered[k],
                forall|k: int| i <= k < count ==> (#[trigger] self.active_voices@[k])@ == before[k],
                forall|k: int| 0 <= k < i ==> #[trigger] completed@[k] == rendered[k].synth.complete(),
                forall|k: int| 0 <= k < i ==> (#[trigger] rendered[k]).synth.well_formed(),
                forall|j: int| 0 <= j < n ==> #[trigger] sums@[j] == mix(before, j as nat, i as int),
                forall|j: int| 0 <= j < n ==> -ONE * i <= #[trigger] sums@[j] <= ONE * i,
            decreases count - i,
        {
            let ghost voice = before[i as int];
            let ghost prev = self.active_voices@;
            assert(prev[i as int]@ == voice);
            assert(voice.synth.well_formed());
            let done = self.active_voices[i].render(voice_buffer.as_mut_slice());
            assert(self.active_voices@ == prev.update(i as int, self.active_voices@[i as int]));
            let ghost had = sums@;
            accumulate(&mut sums, voice_buffer.as_slice(), i);
            proof {
                assert forall|m: int| 0 <= m < n implies #[trigger] sums@[m] == mix(
                    before,
                    m as nat,
                    i as int + 1,
                ) by {
                    assert(had[m] == mix(before, m as nat, i as int));
                    assert(voice_buffer@[m] == voice.synth.begin_frame().sample_at(m as nat));
                }
            }
            completed.push(done);
            i += 1;
        }
        assert(models(self.active_voices@) =~= rendered);
        let mut k: usize = count;
        while k > 0
            invariant
                k <= count,
                completed@.len() == count,
                rendered.len() == count,
                self.config == old(self).config,
                self.base_frequency == old(self).base_frequency,
                self.sample_rate == old(self).sample_rate,
                forall|m: int| 0 <= m < count ==> #[trigger] completed@[m] == rendered[m].synth.complete(),
                self.active_voices@.len() == k + survivors(rendered.skip(k as int)).len(),
                models(self.active_voices@) =~= rendered.take(k as int) + survivors(
                    rendered.skip(k as int),
                ),
            decreases k,
        {
            k -= 1;
            let ghost prev = self.active_voices@;
            proof {
                let tail = rendered.skip(k as int);
                assert(tail.drop_first() =~= rendered.skip(k + 1));
                assert(tail[0] == rendered[k as int]);
                assert(rendered.take(k + 1) =~= rendered.take(k as int).push(rendered[k as int]));
            }
            if completed[k] {
                self.active_voices.remove(k);
                assert(self.active_voices@ == prev.remove(k as int));
                assert(models(self.active_voices@) =~= models(prev).remove(k as int));
            }
        }
        proof {
            assert(rendered.skip(0) =~= rendered);
            assert(rendered.take(0) =~= Seq::empty());
            assert(self@.voices =~= survivors(rendered));
            lemma_survivors_length(rendered);
            assert forall|i: int| 0 <= i < rendered.len() implies (#[trigger] rendered[i]).synth.well_formed() by {
                assert(before[i].synth.well_formed());
                lemma_rendered(before[i].synth, n as nat);
            }
            lemma_survivors_keep(rendered);
        }
        let mut j: usize = 0;
        while j < n
            invariant
                j <= n,
                sums@.len() == n,
                buffer@.len() == n,
                count == before.len(),
                forall|m: int|
                    0 <= m < n ==> #[trigger] sums@[m] == mix(before, m as nat, count as int),
                forall|m: int| 0 <= m < n ==> -ONE * count <= #[trigger] sums@[m] <= ONE * count,
                forall|m: int|
                    0 <= m < j ==> #[trigger] buffer@[m] == soft_clip_value(
                        mix(before, m as nat, count as int),
                    ),
                forall|m: int| 0 <= m < j ==> -CLIP_LIMIT <= #[trigger] buffer@[m] <= CLIP_LIMIT,
            decreases n - j,
        {
            buffer[j] = soft_clip(sums[j]);
            j += 1;
        }
    }

    /// Whether any voice is in the pool.
    pub fn has_active_voices(&self) -> (active: bool)
        ensures
            active == (self@.voices.len() > 0),
    {
        !self.active_voices.is_empty()
    }

    /// The number of voices in the pool.
    pub fn voice_count(&self) -> (count: usize)
        ensures
            count == self@.voices.len(),
    {
        self.active_voices.len()
    }

    /// Releases every voice whose key is down.
    pub fn all_notes_off(&mut self)
        requires
            old(self)@.well_formed(),
        ensures
            final(self)@ == old(self)@.all_released(),
            final(self)@.well_formed(),
    {
        let count = self.active_voices.len();
        let ghost target = self@.all_released().voices;
        let mut i: usize = 0;
        while i < count
            invariant
                i <= count,
                count == self.active_voices@.len(),
                count == old(self)@.voices.len(),
                target == old(self)@.all_released().voices,
                self.config == old(self).config,
                self.base_frequency == old(self).base_frequency,
                self.sample_rate == old(self).sample_rate,
                forall|k: int| 0 <= k < i ==> (#[trigger] self.active_voices@[k])@ == target[k],
                forall|k: int|
                    i <= k < count ==> (#[trigger] self.active_voices@[k])@ == old(self)@.voices[k],
            decreases count - i,
        {
            let ghost prev = self.active_voices@;
            if !self.active_voices[i].is_releasing {
                self.active_voices[i].release();
                assert(self.active_voices@ == prev.update(i as int, self.active_voices@[i as int]));
            }
            i += 1;
        }
        assert(self@.voices =~= target);
        assert forall|i: int, j: int|
            0 <= i < j < self@.voices.len() && !(#[trigger] self@.voices[i]).is_releasing && !(
            #[trigger] self@.voices[j]).is_releasing implies self@.voices[i].note
            != self@.voices[j].note by {
            assert(target[i].is_releasing);
        }
        assert forall|i: int| 0 <= i < self@.voices.len() implies (#[trigger] self@.voices[i]).synth.well_formed() by {
            assert(old(self)@.voices[i].synth.well_formed());
        }
    }

    /// Takes every voice out of the pool at once.
    pub fn clear(&mut self)
        ensures
            final(self)@ == (VoicePool { voices: Seq::empty(), ..old(self)@ }),
    {
        self.active_voices.clear();
        assert(self@.voices =~= Seq::empty());
    }
}

/// A frame keeps an oscillator well formed.
pub proof fn lemma_rendered(o: Oscillator, length: nat)
    requires
        o.well_formed(),
    ensures
        o.begin_frame().after(length).well_formed(),
{
    crate::generator::adsr::lemma_begin_frame(o.mod_env);
    crate::generator::adsr::lemma_begin_frame(o.wav_env);
    lemma_after(o.begin_frame(), length);
}

/// Among voices that are well formed and sound distinct notes, the
/// survivors are well formed and sound distinct notes.
#[verifier::rlimit(50)]
pub proof fn lemma_survivors_keep(voices: Seq<VoiceModel>)
    requires
        forall|i: int| 0 <= i < voices.len() ==> (#[trigger] voices[i]).synth.well_formed(),
        forall|i: int, j: int|
            0 <= i < j < voices.len() && !(#[trigger] voices[i]).is_releasing && !(
            #[trigger] voices[j]).is_releasing ==> voices[i].note != voices[j].note,
    ensures
        forall|i: int|
            0 <= i < survivors(voices).len() ==> (#[trigger] survivors(voices)[i]).synth.well_formed(),
        forall|i: int, j: int|
            0 <= i < j < survivors(voices).len() && !(#[trigger] survivors(voices)[i]).is_releasing
                && !(#[trigger] survivors(voices)[j]).is_releasing ==> survivors(voices)[i].note
                != survivors(voices)[j].note,
        forall|i: int|
            0 <= i < survivors(voices).len() ==> exists|k: int|
                0 <= k < voices.len() && voices[k] == #[trigger] survivors(voices)[i],
    decreases voices.len(),
{
    if voices.len() > 0 {
        let rest = voices.drop_first();
        assert forall|i: int| 0 <= i < rest.len() implies (#[trigger] rest[i]).synth.well_formed() by {
            assert(rest[i] == voices[i + 1]);
        }
        assert forall|i: int, j: int|
            0 <= i < j < rest.len() && !(#[trigger] rest[i]).is_releasing && !(
            #[trigger] rest[j]).is_releasing implies rest[i].note != rest[j].note by {
            assert(rest[i] == voices[i + 1]);
            assert(rest[j] == voices[j + 1]);
        }
        lemma_survivors_keep(rest);
        let kept = survivors(voices);
        let tail = survivors(rest);
        assert forall|i: int| 0 <= i < kept.len() implies exists|k: int|
            0 <= k < voices.len() && voices[k] == #[trigger] kept[i] by {
            if voices[0].synth.complete() {
                let k = choose|k: int| 0 <= k < rest.len() && rest[k] == tail[i];
                assert(voices[k + 1] == kept[i]);
            } else if i == 0 {
                assert(voices[0] == kept[0]);
            } else {
                assert(kept[i] == tail[i - 1]);
                let k = choose|k: int| 0 <= k < rest.len() && rest[k] == tail[i - 1];
                assert(voices[k + 1] == kept[i]);
            }
        }
        if !voices[0].synth.complete() {
            assert forall|i: int, j: int|
                0 <= i < j < kept.len() && !(#[trigger] kept[i]).is_releasing && !(
                #[trigger] kept[j]).is_releasing implies kept[i].note != kept[j].note by {
                assert(kept[j] == tail[j - 1]);
                if i == 0 {
                    let k = choose|k: int| 0 <= k < rest.len() && rest[k] == tail[j - 1];
                    assert(voices[k + 1] == kept[j]);
                    assert(voices[0] == kept[0]);
                } else {
                    assert(kept[i] == tail[i - 1]);
                }
            }
            assert forall|i: int| 0 <= i < kept.len() implies (#[trigger] kept[i]).synth.well_formed() by {
                if i > 0 {
                    assert(kept[i] == tail[i - 1]);
                }
            }
        }
    }
}

} // verus!
