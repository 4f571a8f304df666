//! The attack-decay-sustain-release envelope.
//!
//! An envelope rises from its initial amplitude to full scale (attack),
//! falls to the sustain level (decay), holds it (sustain) until it is
//! released or the sustain has lasted its maximum, and then falls to
//! silence (release). A release that is asked for takes effect at the
//! start of the next frame; every other change of phase happens at the
//! exact sample, in the middle of a frame if need be.

use vstd::prelude::*;
use crate::fixed::{
    clamp_level, clamped_level, is_level, lemma_ramp_value_between, lemma_ramp_value_ends,
    ramp_sample, ramp_value, ONE,
};
use crate::generator::{GeneratorState, SignalGenerator};

verus! {

/// The phases of an envelope, in the order in which it passes through
/// them.
#[derive(Debug, Clone, Copy, PartialEq, Eq, Structural)]
pub enum AdsrPhase {
    Attack,
    Decay,
    Sustain,
    Release,
    Complete,
}

/// A number of samples, raised to one where it is less.
pub open spec fn at_least_one(samples: int) -> int {
    if samples < 1 {
        1
    } else {
        samples
    }
}

/// The state of an envelope as mathematics sees it: its parameters and
/// where it stands.
pub struct Envelope {
    /// The amplitude on which the attack begins.
    pub initial_amplitude: int,
    /// The lengths of the attack, the decay and the release in samples.
    pub attack_duration: int,
    pub decay_duration: int,
    pub release_duration: int,
    /// The level held during the sustain.
    pub sustain_level: int,
    /// The number of samples after which the sustain ends by itself.
    pub sustain_max_duration: int,
    /// The phase that rendered the last sample, or the next one where a
    /// ramp has just ended.
    pub phase: AdsrPhase,
    /// The number of samples of the current ramp rendered so far.
    pub position: int,
    /// The number of samples of sustain rendered so far.
    pub sustain_position: int,
    /// The amplitude of the last sample rendered.
    pub current_amplitude: int,
    /// The amplitude from which the release falls.
    pub release_start_amplitude: int,
    /// Whether a release was asked for since the last frame began.
    pub pending_note_off: bool,
}

impl Envelope {
    /// The invariant of an envelope: levels are valid amplitudes, every
    /// phase lasts a sample or more, and positions lie inside their phase.
    pub open spec fn well_formed(self) -> bool {
        &&& is_level(self.initial_amplitude)
        &&& is_level(self.sustain_level)
        &&& is_level(self.current_amplitude)
        &&& is_level(self.release_start_amplitude)
        &&& 1 <= self.attack_duration
        &&& 1 <= self.decay_duration
        &&& 1 <= self.sustain_max_duration
        &&& 1 <= self.release_duration
        &&& 0 <= self.position
        &&& 0 <= self.sustain_position
        &&& (self.phase == AdsrPhase::Attack ==> self.position < self.attack_duration)
        &&& (self.phase == AdsrPhase::Decay ==> self.position < self.decay_duration)
        &&& (self.phase == AdsrPhase::Sustain ==> self.sustain_position
            <= self.sustain_max_duration && self.current_amplitude == self.sustain_level)
        &&& (self.phase == AdsrPhase::Release ==> self.position < self.release_duration)
        &&& (self.phase == AdsrPhase::Complete ==> self.current_amplitude == 0)
    }

    /// The envelope as it is created from its parameters: levels clamped
    /// to valid amplitudes, durations raised to one sample.
    pub open spec fn initial(
        initial_amplitude: int,
        attack_samples: int,
        decay_samples: int,
        sustain_level: int,
        sustain_max_samples: int,
        release_samples: int,
    ) -> Envelope {
        Envelope {
            initial_amplitude: clamped_level(initial_amplitude),
            attack_duration: at_least_one(attack_samples),
            decay_duration: at_least_one(decay_samples),
            release_duration: at_least_one(release_samples),
            sustain_level: clamped_level(sustain_level),
            sustain_max_duration: at_least_one(sustain_max_samples),
            phase: AdsrPhase::Attack,
            position: 0,
            sustain_position: 0,
            current_amplitude: clamped_level(initial_amplitude),
            release_start_amplitude: 0,
            pending_note_off: false,
        }
    }

    /// The envelope started over: its parameters kept, its state as at
    /// creation.
    pub open spec fn restarted(self) -> Envelope {
        Envelope {
            phase: AdsrPhase::Attack,
            position: 0,
            sustain_position: 0,
            current_amplitude: self.initial_amplitude,
            release_start_amplitude: 0,
            pending_note_off: false,
            ..self
        }
    }

    /// The envelope turned to its release, which falls from the amplitude
    /// of the last sample rendered.
    pub open spec fn released(self) -> Envelope {
        Envelope {
            phase: AdsrPhase::Release,
            release_start_amplitude: self.current_amplitude,
            position: 0,
            ..self
        }
    }

    /// The envelope before it renders a sample: a sustain that has lasted
    /// its maximum gives way to the release.
    pub open spec fn settled(self) -> Envelope {
        if self.phase == AdsrPhase::Sustain && self.sustain_position
            >= self.sustain_max_duration {
            self.released()
        } else {
            self
        }
    }

    /// The envelope at the start of a frame: a release that was asked for
    /// takes effect if the envelope is in its attack, decay or sustain,
    /// and the request is forgotten either way.
    pub open spec fn begin_frame(self) -> Envelope {
        let heard = Envelope { pending_note_off: false, ..self };
        if self.pending_note_off && (self.phase == AdsrPhase::Attack || self.phase
            == AdsrPhase::Decay || self.phase == AdsrPhase::Sustain) {
            heard.released()
        } else {
            heard.settled()
        }
    }

    /// The amplitude of the next sample.
    pub open spec fn next_level(self) -> int {
        let e = self.settled();
        match e.phase {
            AdsrPhase::Attack => ramp_value(
                e.initial_amplitude,
                ONE as int,
                e.position,
                e.attack_duration,
            ),
            AdsrPhase::Decay => ramp_value(ONE as int, e.sustain_level, e.position, e.decay_duration),
            AdsrPhase::Sustain => e.sustain_level,
            AdsrPhase::Release => ramp_value(
                e.release_start_amplitude,
                0,
                e.position,
                e.release_duration,
            ),
            AdsrPhase::Complete => 0,
        }
    }

    /// The phase that renders the next sample.
    pub open spec fn next_phase(self) -> AdsrPhase {
        self.settled().phase
    }

    /// The envelope after it has rendered one sample. A ramp that has
    /// rendered its last sample hands over to the following phase at once;
    /// the sustain hands over only when the next sample is asked for.
    pub open spec fn step(self) -> Envelope {
        let e = self.settled();
        let level = self.next_level();
        match e.phase {
            AdsrPhase::Attack => if e.position + 1 >= e.attack_duration {
                Envelope { phase: AdsrPhase::Decay, position: 0, current_amplitude: level, ..e }
            } else {
                Envelope { position: e.position + 1, current_amplitude: level, ..e }
            },
            AdsrPhase::Decay => if e.position + 1 >= e.decay_duration {
                Envelope {
                    phase: AdsrPhase::Sustain,
                    position: 0,
                    sustain_position: 0,
                    current_amplitude: level,
                    ..e
                }
            } else {
                Envelope { position: e.position + 1, current_amplitude: level, ..e }
            },
            AdsrPhase::Sustain => Envelope {
                sustain_position: e.sustain_position + 1,
                current_amplitude: level,
                ..e
            },
            AdsrPhase::Release => if e.position + 1 >= e.release_duration {
                Envelope { phase: AdsrPhase::Complete, current_amplitude: level, ..e }
            } else {
                Envelope { position: e.position + 1, current_amplitude: level, ..e }
            },
            AdsrPhase::Complete => Envelope { current_amplitude: 0, ..e },
        }
    }

    /// The envelope after it has rendered `count` samples.
    pub open spec fn after(self, count: nat) -> Envelope
        decreases count,
    {
        if count == 0 {
            self
        } else {
            self.after((count - 1) as nat).step()
        }
    }

    /// The amplitude of the sample that follows `index` rendered ones.
    pub open spec fn level_at(self, index: nat) -> int {
        self.after(index).next_level()
    }

    /// The whole length of the envelope when it is never released early.
    pub open spec fn total_duration(self) -> int {
        self.attack_duration + self.decay_duration + self.sustain_max_duration
            + self.release_duration
    }
}

/// Rendering a sample keeps an envelope well formed and its parameters
/// unchanged, and the sample is a valid amplitude that becomes the
/// current amplitude.
pub proof fn lemma_step(e: Envelope)
    requires
        e.well_formed(),
    ensures
        e.step().well_formed(),
        is_level(e.next_level()),
        e.step().current_amplitude == e.next_level(),
        e.step().pending_note_off == e.pending_note_off,
        same_parameters(e.step(), e),
{
    let s = e.settled();
    match s.phase {
        AdsrPhase::Attack => {
            lemma_ramp_value_between(
                s.initial_amplitude,
                ONE as int,
                s.position,
                s.attack_duration,
            );
        },
        AdsrPhase::Decay => {
            lemma_ramp_value_between(ONE as int, s.sustain_level, s.position, s.decay_duration);
            lemma_ramp_value_ends(ONE as int, s.sustain_level, s.decay_duration);
        },
        AdsrPhase::Release => {
            lemma_ramp_value_between(s.release_start_amplitude, 0, s.position, s.release_duration);
            lemma_ramp_value_ends(s.release_start_amplitude, 0, s.release_duration);
        },
        _ => {},
    }
}

/// To settle an envelope changes neither its next sample nor its state
/// after that sample.
pub proof fn lemma_settled(e: Envelope)
    ensures
        e.settled().settled() == e.settled(),
        e.settled().next_level() == e.next_level(),
        e.settled().next_phase() == e.next_phase(),
        e.settled().step() == e.step(),
{
}

/// Rendering `a` samples and then `b` more is rendering `a + b`.
pub proof fn lemma_after_add(e: Envelope, a: nat, b: nat)
    ensures
        e.after(a).after(b) == e.after(a + b),
    decreases b,
{
    if b > 0 {
        lemma_after_add(e, a, (b - 1) as nat);
    }
}

/// Where one phase hands over to the next by itself, the first sample of
/// the new phase equals the last sample of the old one. A ramp of a
/// single sample is its end level, so this is not so where the new phase
/// is such a ramp between two different levels.
pub proof fn lemma_phase_change_is_continuous(e: Envelope)
    requires
        e.well_formed(),
        e.step().next_phase() != e.next_phase(),
        e.step().next_phase() == AdsrPhase::Decay && e.decay_duration == 1 ==> e.sustain_level
            == ONE,
        e.step().next_phase() == AdsrPhase::Release && e.release_duration == 1
            ==> e.sustain_level == 0,
    ensures
        e.step().next_level() == e.next_level(),
{
    let s = e.settled();
    lemma_step(e);
    match s.phase {
        AdsrPhase::Attack => {
            lemma_ramp_value_ends(s.initial_amplitude, ONE as int, s.attack_duration);
            lemma_ramp_value_ends(ONE as int, s.sustain_level, s.decay_duration);
        },
        AdsrPhase::Decay => {
            lemma_ramp_value_ends(ONE as int, s.sustain_level, s.decay_duration);
        },
        AdsrPhase::Sustain => {
            lemma_ramp_value_ends(s.sustain_level, 0, s.release_duration);
        },
        AdsrPhase::Release => {
            lemma_ramp_value_ends(s.release_start_amplitude, 0, s.release_duration);
        },
        AdsrPhase::Complete => {},
    }
}

/// A release that is asked for during the attack, the decay or the
/// sustain begins, with the next frame, on the amplitude of the last
/// sample rendered. A release of a single sample is silence, so this is
/// not so where the release is that short and the amplitude is not 0.
pub proof fn lemma_release_starts_from_current_amplitude(e: Envelope)
    requires
        e.well_formed(),
        e.pending_note_off,
        e.phase == AdsrPhase::Attack || e.phase == AdsrPhase::Decay || e.phase
            == AdsrPhase::Sustain,
        e.release_duration == 1 ==> e.current_amplitude == 0,
    ensures
        e.begin_frame().next_phase() == AdsrPhase::Release,
        e.begin_frame().position == 0,
        e.begin_frame().next_level() == e.current_amplitude,
{
    lemma_ramp_value_ends(e.current_amplitude, 0, e.release_duration);
}

/// A sustain that is not released lasts exactly its maximum: from a
/// sustain that has rendered `sustain_position` samples, each of the
/// samples up to the maximum is the sustain level, and the sample after
/// them is the first of the release.
pub proof fn lemma_sustain_lasts_its_maximum(e: Envelope, index: nat)
    requires
        e.well_formed(),
        e.phase == AdsrPhase::Sustain,
        index <= e.sustain_max_duration - e.sustain_position,
    ensures
        e.after(index).phase == AdsrPhase::Sustain,
        e.after(index).sustain_position == e.sustain_position + index,
        index < e.sustain_max_duration - e.sustain_position ==> {
            &&& e.after(index).next_phase() == AdsrPhase::Sustain
            &&& e.level_at(index) == e.sustain_level
        },
        index == e.sustain_max_duration - e.sustain_position ==> {
            &&& e.after(index).next_phase() == AdsrPhase::Release
            &&& e.after(index).settled().position == 0
            &&& e.level_at(index) == ramp_value(e.sustain_level, 0, 0, e.release_duration)
        },
    decreases index,
{
    lemma_amplitude_bounds(e, index);
    if index > 0 {
        lemma_sustain_lasts_its_maximum(e, (index - 1) as nat);
    }
}

/// Frames may be cut anywhere: while no release is asked for, the
/// samples of a frame that begins after `before` samples are the samples
/// that one longer frame would have held in their place.
pub proof fn lemma_frames_compose(e: Envelope, before: nat, index: nat)
    requires
        !e.pending_note_off,
    ensures
        e.after(before).begin_frame().level_at(index) == e.level_at(before + index),
    decreases index,
{
    let cut = e.after(before);
    lemma_no_release_pending(e, before);
    assert(cut.begin_frame() == cut.settled());
    lemma_settled_after(cut, index);
    lemma_after_add(e, before, index);
}

/// Rendering samples neither asks for a release nor forgets one.
pub proof fn lemma_no_release_pending(e: Envelope, count: nat)
    ensures
        e.after(count).pending_note_off == e.pending_note_off,
    decreases count,
{
    if count > 0 {
        lemma_no_release_pending(e, (count - 1) as nat);
    }
}

/// To settle an envelope first changes none of its samples.
pub proof fn lemma_settled_after(e: Envelope, index: nat)
    ensures
        e.settled().level_at(index) == e.level_at(index),
        index >= 1 ==> e.settled().after(index) == e.after(index),
    decreases index,
{
    lemma_settled(e);
    if index > 1 {
        lemma_settled_after(e, (index - 1) as nat);
    } else if index == 1 {
        assert(e.settled().after(0) == e.settled());
        assert(e.after(0) == e);
    }
}

/// Whether two envelopes have the same parameters.
pub open spec fn same_parameters(a: Envelope, b: Envelope) -> bool {
    &&& a.initial_amplitude == b.initial_amplitude
    &&& a.attack_duration == b.attack_duration
    &&& a.decay_duration == b.decay_duration
    &&& a.sustain_level == b.sustain_level
    &&& a.sustain_max_duration == b.sustain_max_duration
    &&& a.release_duration == b.release_duration
}

/// Through any number of samples an envelope stays well formed, and its
/// amplitude stays between silence and full scale.
pub proof fn lemma_amplitude_bounds(e: Envelope, count: nat)
    requires
        e.well_formed(),
    ensures
        e.after(count).well_formed(),
        same_parameters(e.after(count), e),
        e.after(count).pending_note_off == e.pending_note_off,
        0 <= e.level_at(count) <= ONE,
    decreases count,
{
    if count > 0 {
        lemma_amplitude_bounds(e, (count - 1) as nat);
        lemma_step(e.after((count - 1) as nat));
    }
    lemma_step(e.after(count));
}

/// The start of a frame keeps an envelope well formed.
pub proof fn lemma_begin_frame(e: Envelope)
    requires
        e.well_formed(),
    ensures
        e.begin_frame().well_formed(),
        same_parameters(e.begin_frame(), e),
        !e.begin_frame().pending_note_off,
        e.begin_frame().current_amplitude == e.current_amplitude,
{
}

/// An attack-decay-sustain-release envelope generator.
pub struct AdsrGenerator {
    initial_amplitude: i32,
    attack_duration: usize,
    decay_duration: usize,
    sustain_level: i32,
    sustain_max_duration: usize,
    release_duration: usize,
    phase: AdsrPhase,
    position: usize,
    sustain_position: usize,
    current_amplitude: i32,
    release_start_amplitude: i32,
    pending_note_off: bool,
}

impl View for AdsrGenerator {
    type V = Envelope;

    closed spec fn view(&self) -> Envelope {
        Envelope {
            initial_amplitude: self.initial_amplitude as int,
            attack_duration: self.attack_duration as int,
            decay_duration: self.decay_duration as int,
            release_duration: self.release_duration as int,
            sustain_level: self.sustain_level as int,
            sustain_max_duration: self.sustain_max_duration as int,
            phase: self.phase,
            position: self.position as int,
            sustain_position: self.sustain_position as int,
            current_amplitude: self.current_amplitude as int,
            release_start_amplitude: self.release_start_amplitude as int,
            pending_note_off: self.pending_note_off,
        }
    }
}

impl AdsrGenerator {
    /// An envelope at the start of its attack. Amplitudes outside of
    /// 0 to full scale are clamped, and durations of zero become one
    /// sample.
    pub fn new(
        initial_amplitude: i32,
        attack_samples: usize,
        decay_samples: usize,
        sustain_level: i32,
        sustain_max_samples: usize,
        release_samples: usize,
    ) -> (envelope: Self)
        ensures
            envelope@ == Envelope::initial(
                initial_amplitude as int,
                attack_samples as int,
                decay_samples as int,
                sustain_level as int,
                sustain_max_samples as int,
                release_samples as int,
            ),
            envelope@.well_formed(),
    {
        let initial = clamp_level(initial_amplitude);
        AdsrGenerator {
            initial_amplitude: initial,
            attack_duration: if attack_samples < 1 { 1 } else { attack_samples },
            decay_duration: if decay_samples < 1 { 1 } else { decay_samples },
            sustain_level: clamp_level(sustain_level),
            sustain_max_duration: if sustain_max_samples < 1 { 1 } else { sustain_max_samples },
            release_duration: if release_samples < 1 { 1 } else { release_samples },
            phase: AdsrPhase::Attack,
            position: 0,
            sustain_position: 0,
            current_amplitude: initial,
            release_start_amplitude: 0,
            pending_note_off: false,
        }
    }

    /// Asks for the release. It begins with the next frame, from the
    /// amplitude the envelope has then.
    pub fn note_off(&mut self)
        ensures
            final(self)@ == (Envelope { pending_note_off: true, ..old(self)@ }),
    {
        self.pending_note_off = true;
    }

    /// The amplitude of the last sample rendered; before the first one,
    /// the initial amplitude.
    pub fn current_amplitude(&self) -> (level: i32)
        ensures
            level == self@.current_amplitude,
    {
        self.current_amplitude
    }

    /// The current phase.
    pub fn phase(&self) -> (phase: AdsrPhase)
        ensures
            phase == self@.phase,
    {
        self.phase
    }

    /// Whether the release has ended.
    pub fn is_complete(&self) -> (done: bool)
        ensures
            done == (self@.phase == AdsrPhase::Complete),
    {
        match self.phase {
            AdsrPhase::Complete => true,
            _ => false,
        }
    }

    /// The whole length of the envelope in samples when it is never
    /// released early: attack, decay, longest sustain and release
    /// together, or the largest `usize` where the sum is larger.
    pub fn total_samples(&self) -> (total: usize)
        ensures
            total == if self@.total_duration() > usize::MAX {
                usize::MAX as int
            } else {
                self@.total_duration()
            },
    {
        self.attack_duration.saturating_add(self.decay_duration).saturating_add(
            self.sustain_max_duration,
        ).saturating_add(self.release_duration)
    }

    /// Lets a release that was asked for take effect, and ends a sustain
    /// that has lasted its maximum.
    fn process_events(&mut self)
        requires
            old(self)@.well_formed(),
        ensures
            final(self)@ == old(self)@.begin_frame(),
            final(self)@.well_formed(),
    {
        if self.pending_note_off {
            self.pending_note_off = false;
            match self.phase {
                AdsrPhase::Attack | AdsrPhase::Decay | AdsrPhase::Sustain => {
                    self.phase = AdsrPhase::Release;
                    self.release_start_amplitude = self.current_amplitude;
                    self.position = 0;
                    return ;
                },
                _ => {},
            }
        }
        self.settle();
    }

    /// Ends a sustain that has lasted its maximum.
    fn settle(&mut self)
        requires
            old(self)@.well_formed(),
        ensures
            final(self)@ == old(self)@.settled(),
            final(self)@.well_formed(),
    {
        let sustaining = match self.phase {
            AdsrPhase::Sustain => true,
            _ => false,
        };
        if sustaining && self.sustain_position >= self.sustain_max_duration {
            self.phase = AdsrPhase::Release;
            self.release_start_amplitude = self.current_amplitude;
            self.position = 0;
        }
    }

    /// Renders one sample of the attack.
    fn process_attack(&mut self) -> (level: i32)
        requires
            old(self)@.well_formed(),
            old(self)@.phase == AdsrPhase::Attack,
        ensures
            level == old(self)@.next_level(),
            final(self)@ == old(self)@.step(),
    {
        let level = ramp_sample(
            self.initial_amplitude,
            ONE,
            self.position,
            self.attack_duration,
        );
        self.current_amplitude = level;
        if self.position + 1 >= self.attack_duration {
            self.phase = AdsrPhase::Decay;
            self.position = 0;
        } else {
            self.position = self.position + 1;
        }
        level
    }

    /// Renders one sample of the decay.
    fn process_decay(&mut self) -> (level: i32)
        requires
            old(self)@.well_formed(),
            old(self)@.phase == AdsrPhase::Decay,
        ensures
            level == old(self)@.next_level(),
            final(self)@ == old(self)@.step(),
    {
        let level = ramp_sample(ONE, self.sustain_level, self.position, self.decay_duration);
        self.current_amplitude = level;
        if self.position + 1 >= self.decay_duration {
            self.phase = AdsrPhase::Sustain;
            self.position = 0;
            self.sustain_position = 0;
        } else {
            self.position = self.position + 1;
        }
        level
    }

    /// Renders one sample of the sustain.
    fn process_sustain(&mut self) -> (level: i32)
        requires
            old(self)@.well_formed(),
            old(self)@.phase == AdsrPhase::Sustain,
            old(self)@.sustain_position < old(self)@.sustain_max_duration,
        ensures
            level == old(self)@.next_level(),
            final(self)@ == old(self)@.step(),
    {
        self.current_amplitude = self.sustain_level;
        self.sustain_position = self.sustain_position + 1;
        self.sustain_level
    }

    /// Renders one sample of the release.
    fn process_release(&mut self) -> (level: i32)
        requires
            old(self)@.well_formed(),
            old(self)@.phase == AdsrPhase::Release,
        ensures
            level == old(self)@.next_level(),
            final(self)@ == old(self)@.step(),
    {
        let level = ramp_sample(
            self.release_start_amplitude,
            0,
            self.position,
            self.release_duration,
        );
        self.current_amplitude = level;
        if self.position + 1 >= self.release_duration {
            self.phase = AdsrPhase::Complete;
        } else {
            self.position = self.position + 1;
        }
        level
    }

    /// Renders the next sample, in whichever phase it falls.
    fn advance(&mut self) -> (level: i32)
        requires
            old(self)@.well_formed(),
        ensures
            level == old(self)@.next_level(),
            final(self)@ == old(self)@.step(),
            final(self)@.well_formed(),
            is_level(level as int),
    {
        proof {
            lemma_step(self@);
        }
        self.settle();
        match self.phase {
            AdsrPhase::Attack => self.process_attack(),
            AdsrPhase::Decay => self.process_decay(),
            AdsrPhase::Sustain => self.process_sustain(),
            AdsrPhase::Release => self.process_release(),
            AdsrPhase::Complete => {
                self.current_amplitude = 0;
                0
            },
        }
    }
}

impl SignalGenerator for AdsrGenerator {
    open spec fn well_formed(&self) -> bool {
        self@.well_formed()
    }

    open spec fn finished(&self) -> bool {
        self@.phase == AdsrPhase::Complete
    }

    /// Renders the next frame of the envelope. A release that was asked
    /// for takes effect first; then each sample is rendered in turn, so
    /// that a phase which ends inside the frame is followed by the next
    /// one in the same frame. Every sample is a valid amplitude.
    fn process(&mut self, buffer: &mut [i32]) -> (state: GeneratorState)
        ensures
            final(self)@ == old(self)@.begin_frame().after(old(buffer)@.len()),
            forall|i: int|
                0 <= i < final(buffer)@.len() ==> #[trigger] final(buffer)@[i] == old(self)@
                    .begin_frame().level_at(i as nat),
            forall|i: int|
                0 <= i < final(buffer)@.len() ==> is_level(#[trigger] final(buffer)@[i] as int),
    {
        self.process_events();
        let ghost start = self@;
        let n = buffer.len();
        let mut i: usize = 0;
        while i < n
            invariant
                buffer@.len() == n,
                i <= n,
                start.well_formed(),
                self@.well_formed(),
                self@ == start.after(i as nat),
                forall|j: int| 0 <= j < i ==> #[trigger] buffer@[j] == start.level_at(j as nat),
                forall|j: int| 0 <= j < i ==> is_level(#[trigger] buffer@[j] as int),
            decreases n - i,
        {
            let level = self.advance();
            buffer[i] = level;
            i += 1;
        }
        self.state()
    }

    fn is_complete(&self) -> (done: bool) {
        AdsrGenerator::is_complete(self)
    }

    /// Starts the envelope over: its attack begins anew from the initial
    /// amplitude, and a release that was asked for is forgotten.
    fn reset(&mut self)
        ensures
            final(self)@ == old(self)@.restarted(),
    {
        self.phase = AdsrPhase::Attack;
        self.position = 0;
        self.sustain_position = 0;
        self.current_amplitude = self.initial_amplitude;
        self.release_start_amplitude = 0;
        self.pending_note_off = false;
    }
}

impl AdsrGenerator {
    /// Whether the envelope is still running.
    fn state(&self) -> (state: GeneratorState)
        ensures
            (state == GeneratorState::Complete) == (self@.phase == AdsrPhase::Complete),
    {
        match self.phase {
            AdsrPhase::Complete => GeneratorState::Complete,
            _ => GeneratorState::Running,
        }
    }
}

} // verus!
