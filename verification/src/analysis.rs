//! Rendering single generators to the end, and looking for jumps in
//! what they rendered.

use vstd::prelude::*;
use crate::generator::adsr::{AdsrGenerator, AdsrPhase, Envelope};
use crate::generator::fm_synth::{FmSynthGenerator, FmSynthParams, Oscillator};
use crate::generator::{GeneratorState, SignalGenerator};
use crate::text::{
    find_char, lemma_find_char_between, number_of, parse_number, spec_find_char, spec_trim,
    to_chars, trim,
};
use crate::wav::sample_values;

verus! {

/// The number of samples in the frames of a render.
pub const RENDER_FRAME: usize = 64;

/// The number of samples after which a render gives up.
pub const RENDER_LIMIT: usize = 1000000;

/// The number of samples after which the render of an envelope gives
/// up.
pub const ENVELOPE_LIMIT: usize = 100000;

/// The largest step between two samples of an envelope that counts as
/// smooth: 0.15 of full scale.
pub const DISCONTINUITY_THRESHOLD: i64 = 9830;

/// The numbers that `text` lists between `from` and `to`, separated by
/// commas, each with or without blanks around it. There is no list where
/// a piece is no number.
pub open spec fn numbers_in(text: Seq<char>, from: int, to: int) -> Option<Seq<int>>
    decreases to - from,
{
    if from > to {
        None
    } else {
        let comma = spec_find_char(text, ',', from, to);
        let (first, end) = spec_trim(text, from, comma);
        match number_of(text, first, end) {
            None => None,
            Some(number) => if comma >= to {
                Some(seq![number])
            } else {
                proof {
                    lemma_find_char_between(text, ',', from, to);
                }
                match numbers_in(text, comma + 1, to) {
                    None => None,
                    Some(rest) => Some(seq![number] + rest),
                }
            },
        }
    }
}

/// The values of some numbers.
pub open spec fn number_values(numbers: Seq<usize>) -> Seq<int> {
    Seq::new(numbers.len(), |i: int| numbers[i] as int)
}

/// Reads a list of harmonics such as `2,5,9`: numbers separated by
/// commas, each with or without blanks around it. There is no list where
/// a piece is no number that a `usize` can hold.
#[verifier::rlimit(50)]
pub fn try_parse_harmonics(s: &str) -> (harmonics: Option<Vec<usize>>)
    ensures
        match harmonics {
            Some(list) => numbers_in(s@, 0, s@.len() as int) == Some(number_values(list@)),
            None => numbers_in(s@, 0, s@.len() as int) is None,
        },
{
    let chars = to_chars(s);
    let to = chars.len();
    let mut list: Vec<usize> = Vec::new();
    let mut at: usize = 0;
    loop
        invariant
            to == chars@.len(),
            chars@ == s@,
            at <= to,
            match numbers_in(chars@, at as int, to as int) {
                Some(rest) => numbers_in(chars@, 0, to as int) == Some(number_values(list@) + rest),
                None => numbers_in(chars@, 0, to as int) is None,
            },
        decreases to - at,
    {
        let comma = find_char(&chars, ',', at, to);
        let (first, end) = trim(&chars, at, comma);
        let ghost before = number_values(list@);
        match parse_number(&chars, first, end) {
            None => {
                return None;
            },
            Some(number) => {
                list.push(number);
            },
        }
        proof {
            assert(number_values(list@) =~= before + seq![list@.last() as int]);
        }
        if comma >= to {
            return Some(list);
        }
        proof {
            match numbers_in(chars@, comma + 1, to as int) {
                Some(rest) => {
                    assert(before + (seq![list@.last() as int] + rest) =~= number_values(list@)
                        + rest);
                },
                None => {},
            }
        }
        at = comma + 1;
    }
}

/// Reads a list of harmonics that is known to be one.
pub fn parse_harmonics(s: &str) -> (harmonics: Vec<usize>)
    requires
        numbers_in(s@, 0, s@.len() as int) is Some,
    ensures
        numbers_in(s@, 0, s@.len() as int) == Some(number_values(harmonics@)),
{
    match try_parse_harmonics(s) {
        Some(list) => list,
        None => Vec::new(),
    }
}

/// The samples of the next `length` of an oscillator's frame from
/// sample `from` on.
pub open spec fn oscillator_frame(o: Oscillator, length: nat) -> Seq<int> {
    Seq::new(length, |i: int| o.begin_frame().sample_at(i as nat))
}

/// What an oscillator renders when it is run in frames of
/// `RENDER_FRAME` samples after `rendered` samples: frames up to and
/// with the one in which it completes, or in which the samples pass
/// `RENDER_LIMIT`.
pub open spec fn tone(o: Oscillator, rendered: int) -> Seq<int>
    decreases RENDER_LIMIT + RENDER_FRAME - rendered,
{
    let frame = oscillator_frame(o, RENDER_FRAME as nat);
    let next = o.begin_frame().after(RENDER_FRAME as nat);
    if next.complete() || rendered + RENDER_FRAME > RENDER_LIMIT || rendered < 0 {
        frame
    } else {
        frame + tone(next, rendered + RENDER_FRAME)
    }
}

/// `count` samples of silence.
pub open spec fn silence(count: nat) -> Seq<int> {
    Seq::new(count, |i: int| 0int)
}

/// Renders a voice from its first sample to its completion, with
/// `silence_samples` of silence before and after it. The render stops
/// once it is longer than `RENDER_LIMIT` samples.
#[verifier::rlimit(50)]
pub fn generate_fm_synth(
    params: FmSynthParams,
    mod_env: AdsrGenerator,
    wav_env: AdsrGenerator,
    silence_samples: usize,
) -> (output: Vec<i32>)
    requires
        params.well_formed(),
        mod_env@.well_formed(),
        wav_env@.well_formed(),
        2 * silence_samples + RENDER_LIMIT + RENDER_FRAME <= usize::MAX,
    ensures
        sample_values(output@) == (silence(silence_samples as nat) + tone(
            (Oscillator {
                harmonics: params.harmonics@,
                amps: params.amps@,
                phase_per_sample: params.phase_per_sample as int,
                mod_depth: params.mod_depth as int,
                mod_env: mod_env@,
                wav_env: wav_env@,
                phase: 0,
                sample_count: 0,
            }),
            0,
        )) + silence(silence_samples as nat),
{
    let mut generator = FmSynthGenerator::new(params, mod_env, wav_env);
    let ghost start = generator@;
    let ghost quiet = silence(silence_samples as nat);
    let mut frame_buffer: Vec<i32> = vec![0i32; RENDER_FRAME];
    let mut output: Vec<i32> = vec![0i32; silence_samples];
    assert(sample_values(output@) =~= quiet);
    let ghost mut done: Seq<int> = Seq::empty();
    let mut rendered: usize = 0;
    assert(done + tone(generator@, 0) =~= tone(start, 0));
    assert(quiet + done =~= quiet);
    loop
        invariant_except_break
            sample_values(output@) == quiet + done,
            done + tone(generator@, rendered as int) == tone(start, 0),
            rendered <= RENDER_LIMIT,
            output@.len() == silence_samples + rendered,
        invariant
            frame_buffer@.len() == RENDER_FRAME,
            generator@.well_formed(),
            2 * silence_samples + RENDER_LIMIT + RENDER_FRAME <= usize::MAX,
        ensures
            sample_values(output@) == quiet + tone(start, 0),
            output@.len() <= silence_samples + RENDER_LIMIT + RENDER_FRAME,
        decreases RENDER_LIMIT + RENDER_FRAME - rendered,
    {
        let ghost before = generator@;
        let ghost had = output@;
        let ghost frame = oscillator_frame(before, RENDER_FRAME as nat);
        let state = generator.process(frame_buffer.as_mut_slice());
        output.extend_from_slice(frame_buffer.as_slice());
        proof {
            assert(sample_values(frame_buffer@) =~= frame);
            assert(sample_values(output@) =~= sample_values(had) + frame);
            assert(quiet + (done + frame) =~= (quiet + done) + frame);
        }
        let complete = match state {
            GeneratorState::Complete => true,
            GeneratorState::Running => false,
        };
        if complete || rendered + RENDER_FRAME > RENDER_LIMIT {
            proof {
                assert(tone(before, rendered as int) == frame);
            }
            break ;
        }
        proof {
            let rest = tone(generator@, rendered + RENDER_FRAME);
            assert(tone(before, rendered as int) == frame + rest);
            assert((done + frame) + rest =~= done + (frame + rest));
            done = done + frame;
        }
        rendered = rendered + RENDER_FRAME;
    }
    let ghost voiced = sample_values(output@);
    let mut i: usize = 0;
    assert(voiced + silence(0) =~= voiced);
    while i < silence_samples
        invariant
            i <= silence_samples,
            output@.len() == voiced.len() + i,
            voiced.len() + silence_samples <= usize::MAX,
            sample_values(output@) == voiced + silence(i as nat),
        decreases silence_samples - i,
    {
        let ghost had = output@;
        output.push(0);
        proof {
            lemma_values_push(had, 0);
            assert((voiced + silence(i as nat)).push(0) =~= voiced + silence((i + 1) as nat));
        }
        i += 1;
    }
    output
}

/// The values of some samples with one more are their values with its
/// value.
pub proof fn lemma_values_push(samples: Seq<i32>, sample: i32)
    ensures
        sample_values(samples.push(sample)) == sample_values(samples).push(sample as int),
{
    assert(sample_values(samples.push(sample)) =~= sample_values(samples).push(sample as int));
}

/// The size of the step from the sample before `index` to the sample at
/// `index`.
pub open spec fn step_size(samples: Seq<i32>, index: int) -> int {
    if samples[index] >= samples[index - 1] {
        samples[index] - samples[index - 1]
    } else {
        samples[index - 1] - samples[index]
    }
}

/// Computes [`step_size`].
fn step_at(samples: &[i32], index: usize) -> (size: i64)
    requires
        1 <= index < samples@.len(),
    ensures
        size == step_size(samples@, index as int),
        0 <= size <= 0xffff_ffff,
{
    let a = samples[index - 1] as i64;
    let b = samples[index] as i64;
    if b >= a {
        b - a
    } else {
        a - b
    }
}

/// Finds the first step between two samples that is larger than
/// `threshold`: the index of the sample after the step, and the size of
/// the step. There is none where every step is within the threshold.
pub fn find_sharp_change(samples: &[i32], threshold: i64) -> (found: Option<(usize, i64)>)
    ensures
        match found {
            Some((index, size)) => {
                &&& 1 <= index < samples@.len()
                &&& size == step_size(samples@, index as int)
                &&& size > threshold
                &&& forall|i: int| 1 <= i < index ==> step_size(samples@, i) <= threshold
            },
            None => forall|i: int| 1 <= i < samples@.len() ==> step_size(samples@, i) <= threshold,
        },
{
    let count = samples.len();
    let mut i: usize = 1;
    while i < count
        invariant
            1 <= i,
            count == samples@.len(),
            forall|k: int| 1 <= k < i && k < count ==> step_size(samples@, k) <= threshold,
        decreases count - i,
    {
        let size = step_at(samples, i);
        if size > threshold {
            return Some((i, size));
        }
        i += 1;
    }
    None
}

/// A step between two samples that is too large to be smooth.
#[derive(Debug, Clone, Copy, PartialEq, Eq, Structural)]
pub struct Discontinuity {
    /// The index of the sample after the step.
    pub index: usize,
    /// The sample before the step and the sample after it.
    pub before: i32,
    pub after: i32,
    /// The size of the step.
    pub difference: i64,
}

/// Checks that no step between two samples is larger than
/// `DISCONTINUITY_THRESHOLD`. Where that holds, the result is the
/// largest step and the index of the first sample after a step of that
/// size; both are 0 where no step is larger than 0. Else the result is
/// the first step that is too large.
pub fn check_discontinuities(samples: &[i32]) -> (checked: Result<(i64, usize), Discontinuity>)
    ensures
        match checked {
            Ok((largest, index)) => {
                &&& forall|i: int| 1 <= i < samples@.len() ==> step_size(samples@, i) <= largest
                &&& largest <= DISCONTINUITY_THRESHOLD
                &&& largest == 0 ==> index == 0
                &&& largest > 0 ==> {
                    &&& 1 <= index < samples@.len()
                    &&& step_size(samples@, index as int) == largest
                    &&& forall|i: int| 1 <= i < index ==> step_size(samples@, i) < largest
                }
            },
            Err(jump) => {
                &&& 1 <= jump.index < samples@.len()
                &&& jump.before == samples@[jump.index - 1]
                &&& jump.after == samples@[jump.index as int]
                &&& jump.difference == step_size(samples@, jump.index as int)
                &&& jump.difference > DISCONTINUITY_THRESHOLD
                &&& forall|i: int|
                    1 <= i < jump.index ==> step_size(samples@, i) <= DISCONTINUITY_THRESHOLD
            },
        },
{
    let count = samples.len();
    let mut largest: i64 = 0;
    let mut index: usize = 0;
    let mut i: usize = 1;
    while i < count
        invariant
            1 <= i,
            count == samples@.len(),
            0 <= largest <= DISCONTINUITY_THRESHOLD,
            forall|k: int| 1 <= k < i && k < count ==> step_size(samples@, k) <= largest,
            largest == 0 ==> index == 0,
            largest > 0 ==> {
                &&& 1 <= index < i
                &&& index < count
                &&& step_size(samples@, index as int) == largest
                &&& forall|k: int| 1 <= k < index ==> step_size(samples@, k) < largest
            },
        decreases count - i,
    {
        let size = step_at(samples, i);
        if size > DISCONTINUITY_THRESHOLD {
            return Err(
                Discontinuity {
                    index: i,
                    before: samples[i - 1],
                    after: samples[i],
                    difference: size,
                },
            );
        }
        if size > largest {
            largest = size;
            index = i;
        }
        i += 1;
    }
    Ok((largest, index))
}

/// `value`, or the largest `usize` where it is larger.
pub open spec fn limited(value: int) -> int {
    if value > usize::MAX {
        usize::MAX as int
    } else {
        value
    }
}

/// The length that the render of an envelope is expected to have when
/// it is released at sample `note_off_sample`: that many samples and the
/// release, rounded up to whole frames.
pub open spec fn expected_duration(release_samples: int, frame_size: int, note_off_sample: int) -> int {
    let frames = limited(release_samples + frame_size - 1) / frame_size;
    limited(note_off_sample + limited(frames * frame_size))
}

/// Computes [`expected_duration`].
pub fn compute_expected_duration(release_samples: usize, frame_size: usize, note_off_sample: usize) -> (duration: usize)
    requires
        frame_size > 0,
    ensures
        duration == expected_duration(
            release_samples as int,
            frame_size as int,
            note_off_sample as int,
        ),
{
    let frames = release_samples.saturating_add(frame_size - 1) / frame_size;
    let aligned = match frames.checked_mul(frame_size) {
        Some(aligned) => aligned,
        None => usize::MAX,
    };
    note_off_sample.saturating_add(aligned)
}

/// What the render of an envelope holds: its samples, and for each of
/// them the phase in which the envelope was after the frame of the
/// sample.
pub struct EnvelopePlot {
    pub samples: Seq<int>,
    pub phases: Seq<AdsrPhase>,
}

/// A plot with the plot `rest` after it, where there is one.
pub open spec fn followed_by(plot: EnvelopePlot, rest: Option<EnvelopePlot>) -> Option<
    EnvelopePlot,
> {
    match rest {
        None => None,
        Some(rest) => Some(
            EnvelopePlot {
                samples: plot.samples + rest.samples,
                phases: plot.phases + rest.phases,
            },
        ),
    }
}

/// The plot of one frame of an envelope that is `next` after it.
pub open spec fn frame_plot(ready: Envelope, frame_size: int) -> EnvelopePlot {
    EnvelopePlot {
        samples: Seq::new(frame_size as nat, |i: int| ready.begin_frame().level_at(i as nat)),
        phases: Seq::new(
            frame_size as nat,
            |i: int| ready.begin_frame().after(frame_size as nat).phase,
        ),
    }
}

/// Whether the release is triggered at the start of a frame: it was
/// not triggered before, the frame holds sample `note_off_sample`, and
/// the envelope is neither in its release nor complete.
pub open spec fn triggers(e: Envelope, total: int, frame_size: int, note_off_sample: int, triggered: bool) -> bool {
    !triggered && total <= note_off_sample < total + frame_size && e.phase != AdsrPhase::Release
        && e.phase != AdsrPhase::Complete
}

/// The render of an envelope in frames of `frame_size` samples after
/// `total` samples, with the release triggered at the start of the
/// frame that holds sample `note_off_sample`: frames up to and with the
/// one in which the envelope completes. There is none where the render
/// is longer than `ENVELOPE_LIMIT` samples before that.
pub open spec fn envelope_plot(
    e: Envelope,
    total: int,
    frame_size: int,
    note_off_sample: int,
    triggered: bool,
) -> Option<EnvelopePlot>
    decreases ENVELOPE_LIMIT + 1 - total,
{
    if frame_size <= 0 || total < 0 || total > ENVELOPE_LIMIT {
        None
    } else {
        let trigger = triggers(e, total, frame_size, note_off_sample, triggered);
        let ready = if trigger {
            Envelope { pending_note_off: true, ..e }
        } else {
            e
        };
        let next = ready.begin_frame().after(frame_size as nat);
        let frame = frame_plot(ready, frame_size);
        if next.phase == AdsrPhase::Complete {
            Some(frame)
        } else if total + frame_size > ENVELOPE_LIMIT {
            None
        } else {
            followed_by(
                frame,
                envelope_plot(
                    next,
                    total + frame_size,
                    frame_size,
                    note_off_sample,
                    triggered || trigger,
                ),
            )
        }
    }
}

/// Whether `plot` holds what `expected` holds.
pub open spec fn plot_is(plot: Option<(Vec<i32>, Vec<AdsrPhase>)>, expected: Option<EnvelopePlot>) -> bool {
    match (plot, expected) {
        (Some((samples, phases)), Some(expected)) => sample_values(samples@) == expected.samples
            && phases@ == expected.phases,
        (None, None) => true,
        _ => false,
    }
}

/// Renders an envelope from silence to its completion in frames of
/// `frame_size` samples, with the release triggered at the start of the
/// frame that holds sample `note_off_sample`; the sustain would last
/// until ten releases after that sample. With the samples comes, for
/// each, the phase of the envelope after its frame. There is no render
/// where the envelope has not completed after `ENVELOPE_LIMIT` samples.
#[verifier::rlimit(50)]
pub fn generate_adsr(
    attack_samples: usize,
    decay_samples: usize,
    sustain_level: i32,
    release_samples: usize,
    note_off_sample: usize,
    frame_size: usize,
) -> (plot: Option<(Vec<i32>, Vec<AdsrPhase>)>)
    requires
        0 < frame_size,
    ensures
        plot_is(
            plot,
            envelope_plot(
                Envelope::initial(
                    0,
                    attack_samples as int,
                    decay_samples as int,
                    sustain_level as int,
                    limited(note_off_sample + limited(release_samples * 10)),
                    release_samples as int,
                ),
                0,
                frame_size as int,
                note_off_sample as int,
                false,
            ),
        ),
{
    let long = match release_samples.checked_mul(10) {
        Some(long) => long,
        None => usize::MAX,
    };
    let mut generator = AdsrGenerator::new(
        0,
        attack_samples,
        decay_samples,
        sustain_level,
        note_off_sample.saturating_add(long),
        release_samples,
    );
    let ghost start = generator@;
    let ghost whole = envelope_plot(start, 0, frame_size as int, note_off_sample as int, false);
    let mut samples: Vec<i32> = Vec::new();
    let mut phases: Vec<AdsrPhase> = Vec::new();
    let mut frame_buffer: Vec<i32> = vec![0i32; frame_size];
    let mut total: usize = 0;
    let mut triggered = false;
    let ghost mut done = EnvelopePlot { samples: Seq::empty(), phases: Seq::empty() };
    proof {
        assert(sample_values(samples@) =~= done.samples);
        match whole {
            Some(plot) => {
                assert(done.samples + plot.samples =~= plot.samples);
                assert(done.phases + plot.phases =~= plot.phases);
            },
            None => {},
        }
    }
    loop
        invariant
            0 < frame_size,
            frame_buffer@.len() == frame_size,
            generator@.well_formed(),
            total <= ENVELOPE_LIMIT,
            sample_values(samples@) == done.samples,
            phases@ == done.phases,
            whole == envelope_plot(
                Envelope::initial(
                    0,
                    attack_samples as int,
                    decay_samples as int,
                    sustain_level as int,
                    limited(note_off_sample + limited(release_samples * 10)),
                    release_samples as int,
                ),
                0,
                frame_size as int,
                note_off_sample as int,
                false,
            ),
            whole == followed_by(
                done,
                envelope_plot(
                    generator@,
                    total as int,
                    frame_size as int,
                    note_off_sample as int,
                    triggered,
                ),
            ),
        decreases ENVELOPE_LIMIT + 1 - total,
    {
        let ghost before = generator@;
        let ghost had = samples@;
        let ghost had_phases = phases@;
        let ghost was_triggered = triggered;
        let running = match generator.phase() {
            AdsrPhase::Release => false,
            AdsrPhase::Complete => false,
            _ => true,
        };
        if !triggered && note_off_sample >= total && note_off_sample - total < frame_size
            && running {
            generator.note_off();
            triggered = true;
        }
        let ghost ready = generator@;
        let ghost frame = frame_plot(ready, frame_size as int);
        let state = generator.process(frame_buffer.as_mut_slice());
        let phase = generator.phase();
        let mut i: usize = 0;
        while i < frame_size
            invariant
                i <= frame_size,
                frame.phases.len() == frame_size,
                forall|k: int| 0 <= k < frame_size ==> frame.phases[k] == phase,
                phases@ == had_phases + frame.phases.take(i as int),
            decreases frame_size - i,
        {
            let ghost so_far = phases@;
            phases.push(phase);
            assert(so_far.push(phase) =~= had_phases + frame.phases.take(i + 1));
            i += 1;
        }
        samples.extend_from_slice(frame_buffer.as_slice());
        proof {
            assert(frame.phases.take(frame_size as int) =~= frame.phases);
            assert(sample_values(frame_buffer@) =~= frame.samples);
            assert(sample_values(samples@) =~= sample_values(had) + frame.samples);
        }
        let ghost rest = envelope_plot(
            generator@,
            total + frame_size,
            frame_size as int,
            note_off_sample as int,
            triggered,
        );
        let ghost here = envelope_plot(
            before,
            total as int,
            frame_size as int,
            note_off_sample as int,
            was_triggered,
        );
        let complete = match state {
            GeneratorState::Complete => true,
            GeneratorState::Running => false,
        };
        if complete {
            assert(here == Some(frame));
            return Some((samples, phases));
        }
        if frame_size > ENVELOPE_LIMIT - total {
            assert(here is None);
            return None;
        }
        proof {
            assert(here == followed_by(frame, rest));
            let joined = EnvelopePlot {
                samples: done.samples + frame.samples,
                phases: done.phases + frame.phases,
            };
            match rest {
                Some(tail) => {
                    assert((done.samples + frame.samples) + tail.samples =~= done.samples + (
                    frame.samples + tail.samples));
                    assert((done.phases + frame.phases) + tail.phases =~= done.phases + (
                    frame.phases + tail.phases));
                },
                None => {},
            }
            assert(followed_by(joined, rest) == followed_by(done, here));
            done = joined;
        }
        total = total + frame_size;
    }
}

/// The places among the first `count` phases at which the phase is
/// another than the one before, in rising order.
pub open spec fn changes_in(phases: Seq<AdsrPhase>, count: int) -> Seq<usize>
    decreases count,
{
    if count <= 1 {
        Seq::empty()
    } else if phases[count - 1] != phases[count - 2] {
        changes_in(phases, count - 1).push((count - 1) as usize)
    } else {
        changes_in(phases, count - 1)
    }
}

/// Finds the samples of a plot on which its phase changes: the indices
/// of the phases that differ from the phase before them.
pub fn phase_changes(phases: &[AdsrPhase]) -> (changes: Vec<usize>)
    ensures
        changes@ == changes_in(phases@, phases@.len() as int),
{
    let count = phases.len();
    let mut changes: Vec<usize> = Vec::new();
    let mut i: usize = 1;
    while i < count
        invariant
            1 <= i,
            count == phases@.len(),
            changes@ == changes_in(phases@, if i <= count {
                i as int
            } else {
                count as int
            }),
        decreases count - i,
    {
        if phases[i] != phases[i - 1] {
            changes.push(i);
        }
        i += 1;
    }
    changes
}

} // verus!
