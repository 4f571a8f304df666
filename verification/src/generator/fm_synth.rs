//! The frequency-modulation oscillator.
//!
//! A sine carrier whose phase is driven by a bank of sine modulators.
//! One envelope shapes the depth of the modulation and another the
//! amplitude of the output. For each sample, with `n` the number of
//! samples rendered before it:
//!
//! 1. the modulation is the sum over the bank of `amp * sin(harmonic *
//!    phase_per_sample * n)`;
//! 2. the phase advance is `phase_per_sample * (1 + modulation *
//!    mod_depth * modulation envelope)`, counted in turns;
//! 3. the phase moves on by that advance and wraps to one turn;
//! 4. the sample is the sine of the new phase times the output envelope.

use vstd::prelude::*;
use vstd::arithmetic::div_mod::{lemma_add_mod_noop, lemma_mul_mod_noop_general};
use crate::fixed::{is_level, scale, scaled, ONE};
use crate::generator::adsr::{
    lemma_amplitude_bounds, lemma_begin_frame, lemma_step, AdsrGenerator, AdsrPhase, Envelope,
};
use crate::generator::{GeneratorState, SignalGenerator};
use crate::sine::{lemma_sine_bounds, sine, sine_value, TURN};

verus! {

/// One radian in turns, in units of 2^-32: 2^32 / (2 * pi), rounded to
/// the nearest.
pub const RADIAN: u64 = 683565276;

/// The least phase increment, in units of 2^-32 radians, that is not
/// below pi.
pub const HALF_TURN_RADIANS: u64 = 13493037705;

/// The parameters of a frequency-modulation voice.
#[derive(Debug, Clone)]
pub struct FmSynthParams {
    /// The frequency of each modulator as a multiple of the base
    /// frequency.
    pub harmonics: Vec<usize>,
    /// The weight of each modulator, in units of 1/65536.
    pub amps: Vec<i32>,
    /// The base phase increment in radians per sample, in units of
    /// 2^-32; it lies strictly between 0 and pi.
    pub phase_per_sample: u64,
    /// The depth of the modulation, in units of 1/65536: 0 is none.
    pub mod_depth: u32,
}

impl FmSynthParams {
    /// The invariant of the parameters: each modulator has its weight,
    /// and the base phase increment lies strictly between 0 and pi
    /// radians.
    pub open spec fn well_formed(&self) -> bool {
        &&& self.harmonics@.len() == self.amps@.len()
        &&& 0 < self.phase_per_sample < HALF_TURN_RADIANS
    }

    /// Puts the parameters together. The base phase increment lies
    /// strictly between 0 and pi radians.
    pub fn new(harmonics: Vec<usize>, amps: Vec<i32>, phase_per_sample: u64, mod_depth: u32) -> (params: Self)
        requires
            harmonics@.len() == amps@.len(),
            0 < phase_per_sample < HALF_TURN_RADIANS,
        ensures
            params.harmonics == harmonics,
            params.amps == amps,
            params.phase_per_sample == phase_per_sample,
            params.mod_depth == mod_depth,
            params.well_formed(),
    {
        FmSynthParams { harmonics, amps, phase_per_sample, mod_depth }
    }

    /// A copy of the parameters with another base phase increment, which
    /// lies strictly between 0 and pi radians as every one does.
    pub fn with_phase_per_sample(&self, phase_per_sample: u64) -> (params: Self)
        requires
            0 < phase_per_sample < HALF_TURN_RADIANS,
        ensures
            params.harmonics@ == self.harmonics@,
            params.amps@ == self.amps@,
            params.phase_per_sample == phase_per_sample,
            params.mod_depth == self.mod_depth,
    {
        FmSynthParams {
            harmonics: self.harmonics.clone(),
            amps: self.amps.clone(),
            phase_per_sample,
            mod_depth: self.mod_depth,
        }
    }
}

/// The angle that a modulator advances per sample and per unit of its
/// harmonic, in units of 2^-32 turns: the base phase increment converted
/// from radians.
pub open spec fn modulator_step(phase_per_sample: int) -> int {
    (phase_per_sample * RADIAN) / (TURN as int)
}

/// The angle of a modulator before sample number `index`, wrapped to one
/// turn.
pub open spec fn modulator_angle(harmonic: int, phase_per_sample: int, index: int) -> int {
    (harmonic * index * modulator_step(phase_per_sample)) % (TURN as int)
}

/// The sum of the first `count` modulators before sample number `index`,
/// each the sine of its angle times its weight, in units of 2^-32.
pub open spec fn modulation_sum(
    harmonics: Seq<usize>,
    amps: Seq<i32>,
    phase_per_sample: int,
    index: int,
    count: int,
) -> int
    decreases count,
{
    if count <= 0 {
        0
    } else {
        modulation_sum(harmonics, amps, phase_per_sample, index, count - 1) + amps[count - 1]
            * sine_value(modulator_angle(harmonics[count - 1] as int, phase_per_sample, index))
    }
}

/// The modulation scaled by the modulation depth and by the level of
/// the modulation envelope, all in units of 1/65536.
pub open spec fn deviation(modulation: int, mod_depth: int, level: int) -> int {
    scaled(scaled(modulation * mod_depth) * level)
}

/// The advance of the carrier for one sample, in units of 2^-32 turns:
/// the base phase increment times one plus the deviation.
pub open spec fn phase_advance(phase_per_sample: int, deviation: int) -> int {
    phase_per_sample + scaled(phase_per_sample * deviation)
}

/// The whole length of an envelope, or the largest `usize` where it is
/// longer.
pub open spec fn capped_duration(e: Envelope) -> int {
    if e.total_duration() > usize::MAX {
        usize::MAX as int
    } else {
        e.total_duration()
    }
}

/// The state of an oscillator as mathematics sees it.
pub struct Oscillator {
    pub harmonics: Seq<usize>,
    pub amps: Seq<i32>,
    pub phase_per_sample: int,
    pub mod_depth: int,
    /// The envelope that shapes the depth of the modulation.
    pub mod_env: Envelope,
    /// The envelope that shapes the amplitude of the output.
    pub wav_env: Envelope,
    /// The phase of the carrier, in units of 2^-32 turns.
    pub phase: int,
    /// The number of samples rendered, as the oscillator counts them.
    pub sample_count: int,
}

impl Oscillator {
    /// The invariant of an oscillator.
    pub open spec fn well_formed(self) -> bool {
        &&& self.harmonics.len() == self.amps.len()
        &&& 0 < self.phase_per_sample < HALF_TURN_RADIANS
        &&& 0 <= self.mod_depth <= u32::MAX
        &&& self.mod_env.well_formed()
        &&& self.wav_env.well_formed()
        &&& 0 <= self.phase < TURN
        &&& 0 <= self.sample_count <= usize::MAX
    }

    /// The modulation before the next sample, in units of 1/65536.
    pub open spec fn modulation(self) -> int {
        scaled(
            modulation_sum(
                self.harmonics,
                self.amps,
                self.phase_per_sample,
                self.sample_count,
                self.harmonics.len() as int,
            ),
        )
    }

    /// The phase of the carrier at the next sample.
    pub open spec fn next_phase(self) -> int {
        (self.phase + phase_advance(
            self.phase_per_sample,
            deviation(self.modulation(), self.mod_depth, self.mod_env.next_level()),
        )) % (TURN as int)
    }

    /// The next sample: the sine of the carrier at the level of the
    /// output envelope.
    pub open spec fn next_sample(self) -> int {
        scaled(sine_value(self.next_phase()) * self.wav_env.next_level())
    }

    /// The oscillator after it has rendered one sample. The count of
    /// samples starts again from 0 after the largest `usize`.
    pub open spec fn step(self) -> Oscillator {
        Oscillator {
            mod_env: self.mod_env.step(),
            wav_env: self.wav_env.step(),
            phase: self.next_phase(),
            sample_count: if self.sample_count >= usize::MAX {
                0
            } else {
                self.sample_count + 1
            },
            ..self
        }
    }

    /// The oscillator after it has rendered `count` samples.
    pub open spec fn after(self, count: nat) -> Oscillator
        decreases count,
    {
        if count == 0 {
            self
        } else {
            self.after((count - 1) as nat).step()
        }
    }

    /// The sample that follows `index` rendered ones.
    pub open spec fn sample_at(self, index: nat) -> int {
        self.after(index).next_sample()
    }

    /// The oscillator at the start of a frame: both envelopes begin
    /// their frame.
    pub open spec fn begin_frame(self) -> Oscillator {
        Oscillator {
            mod_env: self.mod_env.begin_frame(),
            wav_env: self.wav_env.begin_frame(),
            ..self
        }
    }

    /// Whether both envelopes have ended.
    pub open spec fn complete(self) -> bool {
        self.mod_env.phase == AdsrPhase::Complete && self.wav_env.phase == AdsrPhase::Complete
    }
}

/// The output of an oscillator never exceeds full scale in either
/// direction, whatever its parameters.
pub proof fn lemma_output_bounds(o: Oscillator)
    requires
        o.well_formed(),
    ensures
        -ONE <= o.next_sample() <= ONE,
        0 <= o.next_phase() < TURN,
        o.step().well_formed(),
{
    lemma_step(o.mod_env);
    lemma_step(o.wav_env);
    let phase = o.next_phase();
    lemma_sine_bounds(phase);
    let s = sine_value(phase);
    let level = o.wav_env.next_level();
    assert(-65536 * 65536 <= s * level <= 65536 * 65536) by (nonlinear_arith)
        requires
            -65536 <= s <= 65536,
            0 <= level <= 65536,
    ;
}

/// After any number of samples the envelopes of an oscillator are where
/// they would be by themselves, its parameters are unchanged, and it is
/// still well formed.
pub proof fn lemma_after(o: Oscillator, count: nat)
    requires
        o.well_formed(),
    ensures
        o.after(count).well_formed(),
        o.after(count).mod_env == o.mod_env.after(count),
        o.after(count).wav_env == o.wav_env.after(count),
        o.after(count).harmonics == o.harmonics,
        o.after(count).amps == o.amps,
        o.after(count).phase_per_sample == o.phase_per_sample,
        o.after(count).mod_depth == o.mod_depth,
        -ONE <= o.sample_at(count) <= ONE,
    decreases count,
{
    if count > 0 {
        lemma_after(o, (count - 1) as nat);
        lemma_output_bounds(o.after((count - 1) as nat));
    }
    lemma_output_bounds(o.after(count));
}

/// A frequency-modulation oscillator with its two envelopes.
pub struct FmSynthGenerator {
    params: FmSynthParams,
    mod_env: AdsrGenerator,
    wav_env: AdsrGenerator,
    phase: u32,
    sample_count: usize,
}

impl View for FmSynthGenerator {
    type V = Oscillator;

    closed spec fn view(&self) -> Oscillator {
        Oscillator {
            harmonics: self.params.harmonics@,
            amps: self.params.amps@,
            phase_per_sample: self.params.phase_per_sample as int,
            mod_depth: self.params.mod_depth as int,
            mod_env: self.mod_env@,
            wav_env: self.wav_env@,
            phase: self.phase as int,
            sample_count: self.sample_count as int,
        }
    }
}

/// Computes [`modulator_angle`] from the modulator step.
fn angle_of(harmonic: usize, step: u64, index: usize) -> (angle: u32)
    ensures
        angle == (harmonic * index * step) % (TURN as int),
{
    let h: u64 = (harmonic as u64) % TURN;
    let n: u64 = (index as u64) % TURN;
    let s: u64 = step % TURN;
    assert(h * n <= 0xffff_ffff * 0xffff_ffff) by (nonlinear_arith)
        requires
            h <= 0xffff_ffff,
            n <= 0xffff_ffff,
    ;
    let hn: u64 = (h * n) % TURN;
    assert(hn * s <= 0xffff_ffff * 0xffff_ffff) by (nonlinear_arith)
        requires
            hn <= 0xffff_ffff,
            s <= 0xffff_ffff,
    ;
    proof {
        lemma_mul_mod_noop_general(harmonic as int, index as int, TURN as int);
        lemma_mul_mod_noop_general(harmonic * index, step as int, TURN as int);
    }
    ((hn * s) % TURN) as u32
}

impl FmSynthGenerator {
    /// An oscillator at phase 0 that has rendered no sample.
    pub fn new(params: FmSynthParams, mod_env: AdsrGenerator, wav_env: AdsrGenerator) -> (generator: Self)
        requires
            params.well_formed(),
            mod_env@.well_formed(),
            wav_env@.well_formed(),
        ensures
            generator@ == (Oscillator {
                harmonics: params.harmonics@,
                amps: params.amps@,
                phase_per_sample: params.phase_per_sample as int,
                mod_depth: params.mod_depth as int,
                mod_env: mod_env@,
                wav_env: wav_env@,
                phase: 0,
                sample_count: 0,
            }),
            generator@.well_formed(),
    {
        FmSynthGenerator { params, mod_env, wav_env, phase: 0, sample_count: 0 }
    }

    /// Flags envelopes of different lengths: where the whole length of
    /// the modulation envelope is another than that of the output
    /// envelope, the two lengths, each capped at the largest `usize`.
    /// The shorter envelope cuts short what it shapes.
    pub fn envelope_mismatch(&self) -> (lengths: Option<(usize, usize)>)
        ensures
            lengths == if capped_duration(self@.mod_env) == capped_duration(self@.wav_env) {
                None
            } else {
                Some(
                    (
                        capped_duration(self@.mod_env) as usize,
                        capped_duration(self@.wav_env) as usize,
                    ),
                )
            },
    {
        let mod_total = self.mod_env.total_samples();
        let wav_total = self.wav_env.total_samples();
        if mod_total == wav_total {
            None
        } else {
            Some((mod_total, wav_total))
        }
    }

    /// The modulation before the next sample, in units of 1/65536: the
    /// sum over the bank of each modulator's sine times its weight.
    pub fn compute_modulation(&self) -> (modulation: i128)
        requires
            self@.well_formed(),
        ensures
            modulation == self@.modulation(),
            -0x8000_0000_0000_0000_0000_0000 <= modulation <= 0x8000_0000_0000_0000_0000_0000,
    {
        let count = self.params.harmonics.len();
        assert((self.params.phase_per_sample as u128) * (RADIAN as u128) <= 0xffff_ffff_ffff_ffff
            * 683565276) by (nonlinear_arith)
            requires
                self.params.phase_per_sample as u128 <= 0xffff_ffff_ffff_ffff,
                RADIAN as u128 == 683565276,
        ;
        let product: u128 = (self.params.phase_per_sample as u128) * (RADIAN as u128);
        assert(product / 4294967296 <= 0xffff_ffff_ffff_ffff);
        let step: u64 = (product / (TURN as u128)) as u64;
        let mut sum: i128 = 0;
        let mut i: usize = 0;
        while i < count
            invariant
                self@.well_formed(),
                count == self.params.harmonics@.len(),
                i <= count,
                step == modulator_step(self.params.phase_per_sample as int),
                sum == modulation_sum(
                    self.params.harmonics@,
                    self.params.amps@,
                    self.params.phase_per_sample as int,
                    self.sample_count as int,
                    i as int,
                ),
                -0x8000_0000_0000 * i <= sum <= 0x8000_0000_0000 * i,
            decreases count - i,
        {
            let angle = angle_of(self.params.harmonics[i], step, self.sample_count);
            let wave = sine(angle) as i128;
            let amp = self.params.amps[i] as i128;
            assert(-0x8000_0000_0000 <= amp * wave <= 0x8000_0000_0000) by (nonlinear_arith)
                requires
                    -0x8000_0000 <= amp <= 0x8000_0000,
                    -65536 <= wave <= 65536,
            ;
            sum = sum + amp * wave;
            i += 1;
        }
        scale(sum)
    }

    /// The phase of the carrier, in units of 2^-32 turns.
    pub fn phase(&self) -> (phase: u32)
        ensures
            phase == self@.phase,
    {
        self.phase
    }

    /// The number of samples rendered since creation or the last reset.
    pub fn sample_count(&self) -> (count: usize)
        ensures
            count == self@.sample_count,
    {
        self.sample_count
    }

    /// Asks both envelopes for their release, which begins with the next
    /// frame.
    pub fn note_off(&mut self)
        ensures
            final(self)@ == (Oscillator {
                mod_env: Envelope { pending_note_off: true, ..old(self)@.mod_env },
                wav_env: Envelope { pending_note_off: true, ..old(self)@.wav_env },
                ..old(self)@
            }),
    {
        self.mod_env.note_off();
        self.wav_env.note_off();
    }

    /// The carrier's phase after the next sample, given the level of
    /// the modulation envelope for it.
    fn advance_phase(&self, level: i32) -> (phase: u32)
        requires
            self@.well_formed(),
            is_level(level as int),
        ensures
            phase == (self@.phase + phase_advance(
                self@.phase_per_sample,
                deviation(self@.modulation(), self@.mod_depth, level as int),
            )) % (TURN as int),
    {
        let modulation = self.compute_modulation();
        let depth = self.params.mod_depth as i128;
        assert(-0x8000_0000_0000_0000_0000_0000 * 0xffff_ffff <= modulation * depth
            <= 0x8000_0000_0000_0000_0000_0000 * 0xffff_ffff) by (nonlinear_arith)
            requires
                -0x8000_0000_0000_0000_0000_0000 <= modulation <= 0x8000_0000_0000_0000_0000_0000,
                0 <= depth <= 0xffff_ffff,
        ;
        let deep = scale(modulation * depth);
        assert(-0x7fff_ffff_8000_0000_0000_0000_0000 <= deep
            <= 0x7fff_ffff_8000_0000_0000_0000_0000);
        assert(-0x7fff_ffff_8000_0000_0000_0000_0000 * 0x1_0000 <= deep * (level as i128)
            <= 0x7fff_ffff_8000_0000_0000_0000_0000 * 0x1_0000) by (nonlinear_arith)
            requires
                -0x7fff_ffff_8000_0000_0000_0000_0000 <= deep
                    <= 0x7fff_ffff_8000_0000_0000_0000_0000,
                0 <= level <= 0x1_0000,
        ;
        let deviation = scale(deep * (level as i128));
        let base = self.params.phase_per_sample;
        let shift = wrapped_share(base, deviation);
        (((self.phase as u64) + base % TURN + shift) % TURN) as u32
    }
}

/// A product splits along its second factor: the quotient of `base *
/// (whole * divisor + part)` by `divisor` is `base * whole` and the
/// quotient of `base * part`.
proof fn lemma_quotient_splits(base: int, whole: int, part: int, divisor: int)
    by (nonlinear_arith)
    requires
        0 <= base,
        0 <= whole,
        0 <= part < divisor,
    ensures
        (base * (whole * divisor + part)) / divisor == base * whole + (base * part) / divisor,
        0 <= base * (whole * divisor + part),
{
}

/// The share that a deviation of `magnitude` adds, wrapped to one turn,
/// from its two halves: `high` for the whole units of the deviation and
/// `low` for the rest.
proof fn lemma_share_of_magnitude(base: int, magnitude: int, high: int, low: int)
    requires
        0 <= base,
        0 <= magnitude,
        high == ((base % 4294967296) * ((magnitude / 65536) % 4294967296)) % 4294967296,
        low == (base * (magnitude % 65536)) / 65536,
    ensures
        (high + low % 4294967296) % 4294967296 == scaled(base * magnitude) % 4294967296,
{
    let whole = magnitude / 65536;
    let part = magnitude % 65536;
    let product = base * whole;
    assert(magnitude == whole * 65536 + part);
    lemma_quotient_splits(base, whole, part, 65536);
    assert(scaled(base * magnitude) == product + low);
    lemma_mul_mod_noop_general(base, whole, 4294967296);
    assert(high == product % 4294967296);
    lemma_add_mod_noop(product, low, 4294967296);
}

/// The share that a negative deviation takes away is the negative of
/// the share that the opposite deviation adds.
proof fn lemma_share_of_negative(base: int, deviation: int)
    requires
        0 <= base,
        deviation < 0,
    ensures
        scaled(base * deviation) == -scaled(base * (-deviation)),
{
    assert(base * deviation == -(base * (-deviation)) && 0 <= base * (-deviation))
        by (nonlinear_arith)
        requires
            0 <= base,
            deviation < 0,
    ;
}

/// A number and its negative, wrapped to one turn, add up to a turn or
/// are both 0.
proof fn lemma_wrapped_negative(value: int)
    ensures
        (-value) % 4294967296 == if value % 4294967296 == 0 {
            0
        } else {
            4294967296 - value % 4294967296
        },
{
}

/// The share of the base phase increment that the deviation adds to the
/// advance of the carrier, wrapped to one turn.
#[verifier::rlimit(50)]
fn wrapped_share(base: u64, deviation: i128) -> (share: u64)
    requires
        deviation > i128::MIN,
    ensures
        share == scaled(base * deviation) % (TURN as int),
{
    let negative = deviation < 0;
    let magnitude: u128 = if negative {
        (-deviation) as u128
    } else {
        deviation as u128
    };
    let whole: u128 = magnitude / 65536;
    let part: u128 = magnitude % 65536;
    let b: u64 = base % TURN;
    let w: u64 = (whole % (TURN as u128)) as u64;
    assert(b * w <= 0xffff_ffff * 0xffff_ffff) by (nonlinear_arith)
        requires
            b <= 0xffff_ffff,
            w <= 0xffff_ffff,
    ;
    let high: u64 = (b * w) % TURN;
    assert((base as u128) * part <= 0xffff_ffff_ffff_ffff * 0xffff) by (nonlinear_arith)
        requires
            base <= 0xffff_ffff_ffff_ffff,
            part <= 0xffff,
    ;
    let low: u128 = ((base as u128) * part) / 65536;
    let low_wrapped: u64 = (low % (TURN as u128)) as u64;
    let forward: u64 = (high + low_wrapped) % TURN;
    proof {
        lemma_share_of_magnitude(base as int, magnitude as int, high as int, low as int);
        if negative {
            lemma_share_of_negative(base as int, deviation as int);
            lemma_wrapped_negative(scaled(base * magnitude));
        }
    }
    if negative && forward != 0 {
        TURN - forward
    } else {
        forward
    }
}

impl SignalGenerator for FmSynthGenerator {
    open spec fn well_formed(&self) -> bool {
        self@.well_formed()
    }

    open spec fn finished(&self) -> bool {
        self@.complete()
    }

    /// Renders the next frame. Both envelopes begin their frame and
    /// advance by its length; the carrier and the count of samples
    /// advance sample by sample. Reports `Complete` once both envelopes
    /// have ended. No sample exceeds full scale in either direction.
    #[verifier::rlimit(50)]
    fn process(&mut self, buffer: &mut [i32]) -> (state: GeneratorState)
        ensures
            final(self)@ == old(self)@.begin_frame().after(old(buffer)@.len()),
            forall|i: int|
                0 <= i < final(buffer)@.len() ==> #[trigger] final(buffer)@[i] == old(self)@
                    .begin_frame().sample_at(i as nat),
            forall|i: int|
                0 <= i < final(buffer)@.len() ==> -ONE <= #[trigger] final(buffer)@[i] <= ONE,
    {
        let n = buffer.len();
        let ghost start = self@.begin_frame();
        proof {
            lemma_begin_frame(self@.mod_env);
            lemma_begin_frame(self@.wav_env);
        }
        let mut mod_levels: Vec<i32> = vec![0i32; n];
        let mut wav_levels: Vec<i32> = vec![0i32; n];
        let mod_state = self.mod_env.process(mod_levels.as_mut_slice());
        let wav_state = self.wav_env.process(wav_levels.as_mut_slice());
        let mut i: usize = 0;
        while i < n
            invariant
                buffer@.len() == n,
                mod_levels@.len() == n,
                wav_levels@.len() == n,
                i <= n,
                start.well_formed(),
                self@.well_formed(),
                self@.harmonics == start.harmonics,
                self@.amps == start.amps,
                self@.phase_per_sample == start.phase_per_sample,
                self@.mod_depth == start.mod_depth,
                self@.mod_env == start.mod_env.after(n as nat),
                self@.wav_env == start.wav_env.after(n as nat),
                self@.phase == start.after(i as nat).phase,
                self@.sample_count == start.after(i as nat).sample_count,
                forall|j: int|
                    0 <= j < n ==> #[trigger] mod_levels@[j] == start.mod_env.level_at(j as nat),
                forall|j: int|
                    0 <= j < n ==> #[trigger] wav_levels@[j] == start.wav_env.level_at(j as nat),
                forall|j: int| 0 <= j < i ==> #[trigger] buffer@[j] == start.sample_at(j as nat),
                forall|j: int| 0 <= j < i ==> -ONE <= #[trigger] buffer@[j] <= ONE,
            decreases n - i,
        {
            let ghost now = start.after(i as nat);
            proof {
                lemma_after(start, i as nat);
                lemma_output_bounds(now);
                lemma_amplitude_bounds(start.mod_env, i as nat);
                lemma_amplitude_bounds(start.wav_env, i as nat);
                assert(self@.modulation() == now.modulation());
            }
            let mod_level = mod_levels[i];
            let wav_level = wav_levels[i];
            let phase = self.advance_phase(mod_level);
            assert(phase == now.next_phase());
            let wave = sine(phase) as i128;
            assert(-65536 * 65536 <= wave * (wav_level as i128) <= 65536 * 65536)
                by (nonlinear_arith)
                requires
                    -65536 <= wave <= 65536,
                    0 <= wav_level <= 65536,
            ;
            let sample = scale(wave * (wav_level as i128)) as i32;
            self.phase = phase;
            self.sample_count = if self.sample_count == usize::MAX {
                0
            } else {
                self.sample_count + 1
            };
            buffer[i] = sample;
            i += 1;
        }
        proof {
            lemma_after(start, n as nat);
        }
        match (mod_state, wav_state) {
            (GeneratorState::Complete, GeneratorState::Complete) => GeneratorState::Complete,
            _ => GeneratorState::Running,
        }
    }

    fn is_complete(&self) -> (done: bool) {
        self.mod_env.is_complete() && self.wav_env.is_complete()
    }

    /// Starts the oscillator over: both envelopes are reset, the phase
    /// and the count of samples return to 0.
    fn reset(&mut self)
        ensures
            final(self)@ == (Oscillator {
                mod_env: old(self)@.mod_env.restarted(),
                wav_env: old(self)@.wav_env.restarted(),
                phase: 0,
                sample_count: 0,
                ..old(self)@
            }),
    {
        self.mod_env.reset();
        self.wav_env.reset();
        self.phase = 0;
        self.sample_count = 0;
    }
}

} // verus!
