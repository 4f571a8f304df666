//! The scheduler: it turns a timeline into samples, frame by frame.
//!
//! Every entry of the timeline is due a number of samples after the
//! entry before it: its delta times the length of a timestep. At the
//! start of each frame the entries that are due hand their events to the
//! pool of voices; then the pool renders the frame, and time moves on by
//! its length.

use vstd::prelude::*;
use crate::clip::CLIP_LIMIT;
use crate::pipeline::parser::{entries_of, Event, TimedEvents, TimelineEntry};
use crate::pipeline::voicemgr::{VoiceConfig, VoiceManager, VoicePool};
use crate::wav::{sample_values, wav_fits, wav_image, write_wav_16bit};

verus! {

/// The number of frames that a render may add to let voices fade after
/// its main loop.
pub const TRAILING_FRAMES: usize = 10;

/// The number of frames that a render is allowed beyond the length of
/// its timeline.
pub const SPARE_FRAMES: usize = 1000;

/// The settings of a pipeline.
#[derive(Debug, Clone)]
pub struct PipelineConfig {
    /// The sample rate in Hz.
    pub sample_rate: u32,
    /// The number of samples in a frame.
    pub frame_size: usize,
    /// The number of samples in a timestep.
    pub timestep_samples: usize,
    /// The settings that all voices share.
    pub voice_config: VoiceConfig,
    /// The frequency of C in octave 1, in units of 1/65536 Hz.
    pub base_frequency: u32,
}

impl Default for PipelineConfig {
    /// 44100 samples a second in frames of 64, timesteps of 1000
    /// samples, the default voices, and C in octave 1 at 110 Hz.
    fn default() -> (config: Self)
        ensures
            config.sample_rate == 44100,
            config.frame_size == 64,
            config.timestep_samples == 1000,
            config.base_frequency == 7208960,
            config.voice_config.fm_params.harmonics@ == seq![2usize, 5usize, 9usize],
            config.voice_config.fm_params.amps@ == seq![65536i32, 131072i32, 65536i32],
            config.voice_config.fm_params.phase_per_sample == 429496730,
            config.voice_config.fm_params.mod_depth == 65536,
            config.voice_config.attack_samples == 4410,
            config.voice_config.decay_samples == 8820,
            config.voice_config.sustain_level == 45875,
            config.voice_config.release_samples == 13230,
            config.voice_config.fm_params.well_formed(),
    {
        PipelineConfig {
            sample_rate: 44100,
            frame_size: 64,
            timestep_samples: 1000,
            voice_config: VoiceConfig::default(),
            base_frequency: 7208960,
        }
    }
}

/// `value`, or the largest `usize` where it is larger.
pub open spec fn capped(value: int) -> int {
    if value > usize::MAX {
        usize::MAX as int
    } else {
        value
    }
}

/// The pool after the first `count` of `events`, handled in their
/// order.
pub open spec fn dispatched(pool: VoicePool, events: Seq<Event>, count: int) -> VoicePool
    decreases count,
{
    if count <= 0 {
        pool
    } else {
        dispatched(pool, events, count - 1).handle(
            events[count - 1].note,
            events[count - 1].direction,
        )
    }
}

/// The sum of the deltas of the first `count` entries, capped after
/// each.
pub open spec fn total_delta(entries: Seq<TimelineEntry>, count: int) -> int
    decreases count,
{
    if count <= 0 {
        0
    } else {
        capped(total_delta(entries, count - 1) + entries[count - 1].delta)
    }
}

/// The state of a pipeline as mathematics sees it.
pub struct Schedule {
    pub pool: VoicePool,
    pub entries: Seq<TimelineEntry>,
    pub frame_size: int,
    pub timestep_samples: int,
    pub release_samples: int,
    pub sample_rate: int,
    /// The number of samples rendered so far.
    pub current_sample: int,
    /// The number of entries that have been dispatched.
    pub event_index: int,
    /// The number of samples until the next entry is due.
    pub samples_to_next_event: int,
    /// Whether an entry is still to be dispatched.
    pub has_more_events: bool,
}

impl Schedule {
    /// The invariant of a pipeline.
    pub open spec fn well_formed(self) -> bool {
        &&& self.pool.well_formed()
        &&& self.entries.len() <= usize::MAX
        &&& forall|i: int|
            0 <= i < self.entries.len() ==> 0 <= (#[trigger] self.entries[i]).delta <= usize::MAX
        &&& 1 <= self.frame_size <= usize::MAX
        &&& 0 <= self.timestep_samples <= usize::MAX
        &&& 0 <= self.release_samples <= usize::MAX
        &&& 0 <= self.sample_rate <= u32::MAX
        &&& 0 <= self.current_sample <= usize::MAX
        &&& 0 <= self.event_index <= self.entries.len()
        &&& 0 <= self.samples_to_next_event <= usize::MAX
        &&& (self.has_more_events ==> self.event_index < self.entries.len())
    }

    /// The number of samples from one entry to entry number `index`: its
    /// delta in timesteps.
    pub open spec fn countdown(self, index: int) -> int {
        capped(self.entries[index].delta * self.timestep_samples)
    }

    /// Whether the timeline has an entry left or a voice is in the pool.
    pub open spec fn is_active(self) -> bool {
        self.has_more_events || self.pool.voices.len() > 0
    }

    /// The pipeline after its next entry has been dispatched: the events
    /// of the entry have gone to the pool in their order, and the entry
    /// after it is awaited, if there is one.
    pub open spec fn entry_dispatched(self) -> Schedule {
        let events = self.entries[self.event_index].events;
        let pool = dispatched(self.pool, events, events.len() as int);
        let next = self.event_index + 1;
        if next >= self.entries.len() {
            Schedule {
                pool,
                event_index: next,
                has_more_events: false,
                samples_to_next_event: usize::MAX as int,
                ..self
            }
        } else {
            Schedule {
                pool,
                event_index: next,
                samples_to_next_event: self.countdown(next),
                ..self
            }
        }
    }

    /// The pipeline after the entries that are due have been dispatched:
    /// while the next entry is due at once, it is dispatched.
    pub open spec fn due(self) -> Schedule
        decreases self.entries.len() - self.event_index,
    {
        if self.has_more_events && self.samples_to_next_event == 0 && 0 <= self.event_index
            < self.entries.len() {
            let next = self.entry_dispatched();
            if next.has_more_events {
                next.due()
            } else {
                next
            }
        } else {
            self
        }
    }

    /// The pipeline after time has moved on by `samples`: the wait for
    /// the next entry is shorter by as much, but not below 0.
    pub open spec fn advanced(self, samples: int) -> Schedule {
        Schedule {
            current_sample: capped(self.current_sample + samples),
            samples_to_next_event: if self.has_more_events && self.samples_to_next_event > 0 {
                if self.samples_to_next_event > samples {
                    self.samples_to_next_event - samples
                } else {
                    0
                }
            } else {
                self.samples_to_next_event
            },
            ..self
        }
    }

    /// The pipeline after a frame of `length` samples.
    pub open spec fn frame(self, length: nat) -> Schedule {
        let ready = self.due();
        (Schedule { pool: ready.pool.render(length), ..ready }).advanced(length as int)
    }

    /// Sample number `index` of the next frame.
    pub open spec fn frame_sample(self, index: nat) -> int {
        self.due().pool.sample_at(index)
    }

    /// The next frame at the pipeline's frame size.
    pub open spec fn frame_samples(self) -> Seq<int> {
        Seq::new(self.frame_size as nat, |i: int| self.frame_sample(i as nat))
    }

    /// The pipeline after `count` frames of its frame size.
    pub open spec fn frames(self, count: nat) -> Schedule
        decreases count,
    {
        if count == 0 {
            self
        } else {
            self.frames((count - 1) as nat).frame(self.frame_size as nat)
        }
    }

    /// The pipeline after `count` frames of its frame size in which no
    /// entry is dispatched: the pool has rendered them, and time has
    /// moved on.
    pub open spec fn idle_frames(self, count: nat) -> Schedule
        decreases count,
    {
        if count == 0 {
            self
        } else {
            let before = self.idle_frames((count - 1) as nat);
            (Schedule { pool: before.pool.render(self.frame_size as nat), ..before }).advanced(
                self.frame_size,
            )
        }
    }

    /// Whether a render goes on: its main loop, while the pipeline is
    /// active; the flush after it, while a voice is in the pool.
    pub open spec fn goes_on(self, flush: bool) -> bool {
        if flush {
            self.pool.voices.len() > 0
        } else {
            self.is_active()
        }
    }

    /// The pipeline after a run of at most `budget` frames, which ends
    /// early where the render no longer goes on.
    pub open spec fn run(self, budget: nat, flush: bool) -> Schedule
        decreases budget,
    {
        if budget == 0 || !self.goes_on(flush) {
            self
        } else {
            self.frame(self.frame_size as nat).run((budget - 1) as nat, flush)
        }
    }

    /// The samples of a run of at most `budget` frames.
    pub open spec fn run_samples(self, budget: nat, flush: bool) -> Seq<int>
        decreases budget,
    {
        if budget == 0 || !self.goes_on(flush) {
            Seq::empty()
        } else {
            self.frame_samples() + self.frame(self.frame_size as nat).run_samples(
                (budget - 1) as nat,
                flush,
            )
        }
    }

    /// The number of frames that the main loop of a render may take: the
    /// length of the timeline and two releases, in frames, and
    /// `SPARE_FRAMES` more.
    pub open spec fn frame_budget(self) -> int {
        let timeline = capped(total_delta(self.entries, self.entries.len() as int)
            * self.timestep_samples);
        let samples = capped(timeline + capped(self.release_samples * 2));
        capped(samples / self.frame_size + SPARE_FRAMES)
    }

    /// The samples of a whole render: the main loop, and the frames that
    /// let the voices fade that are left after it.
    pub open spec fn rendering(self) -> Seq<int> {
        let budget = self.frame_budget() as nat;
        self.run_samples(budget, false) + self.run(budget, false).run_samples(
            TRAILING_FRAMES as nat,
            true,
        )
    }

    /// The pipeline after a whole render.
    pub open spec fn rendered(self) -> Schedule {
        self.run(self.frame_budget() as nat, false).run(TRAILING_FRAMES as nat, true)
    }
}

/// An entry waits for its sample: while every frame begins before the
/// entry is due, no entry is dispatched, the pool only renders, and the
/// wait grows shorter by a frame each time, down to 0.
pub proof fn lemma_entry_waits_for_its_sample(s: Schedule, count: nat)
    requires
        s.has_more_events,
        1 <= s.frame_size,
        0 <= s.samples_to_next_event,
        count >= 1 ==> (count - 1) * s.frame_size < s.samples_to_next_event,
    ensures
        s.frames(count) == s.idle_frames(count),
        s.frames(count).has_more_events,
        s.frames(count).event_index == s.event_index,
        s.frames(count).entries == s.entries,
        s.frames(count).frame_size == s.frame_size,
        s.frames(count).samples_to_next_event == if count * s.frame_size
            < s.samples_to_next_event {
            s.samples_to_next_event - count * s.frame_size
        } else {
            0
        },
    decreases count,
{
    if count > 0 {
        let before = (count - 1) as nat;
        assert(before >= 1 ==> (before - 1) * s.frame_size < s.samples_to_next_event)
            by (nonlinear_arith)
            requires
                (before + 1 - 1) * s.frame_size < s.samples_to_next_event,
                1 <= s.frame_size,
        ;
        lemma_entry_waits_for_its_sample(s, before);
        assert(count * s.frame_size == before * s.frame_size + s.frame_size)
            by (nonlinear_arith)
            requires
                count == before + 1,
        ;
        let waiting = s.frames(before);
        assert(waiting.samples_to_next_event > 0);
        assert(waiting.due() == waiting);
    } else {
        assert(count * s.frame_size == 0) by (nonlinear_arith)
            requires
                count == 0,
        ;
    }
}

/// An entry takes effect at the start of the first frame that begins on
/// or after the sample at which it is due: it is dispatched there, after
/// frames in which the pool has only rendered.
pub proof fn lemma_entry_takes_effect_at_its_sample(s: Schedule, count: nat)
    requires
        s.has_more_events,
        0 <= s.event_index < s.entries.len(),
        1 <= s.frame_size,
        0 <= s.samples_to_next_event <= count * s.frame_size,
        count >= 1 ==> (count - 1) * s.frame_size < s.samples_to_next_event,
    ensures
        s.frames(count).samples_to_next_event == 0,
        s.frames(count).event_index == s.event_index,
        s.frames(count).due().event_index > s.event_index,
        s.frames(count).due() == s.idle_frames(count).entry_dispatched().due(),
{
    lemma_entry_waits_for_its_sample(s, count);
    let waiting = s.frames(count);
    let next = waiting.entry_dispatched();
    lemma_due_moves_on(next);
}

/// To dispatch what is due never goes back in the timeline.
pub proof fn lemma_due_moves_on(s: Schedule)
    ensures
        s.due().event_index >= s.event_index,
    decreases s.entries.len() - s.event_index,
{
    if s.has_more_events && s.samples_to_next_event == 0 && 0 <= s.event_index < s.entries.len() {
        let next = s.entry_dispatched();
        if next.has_more_events {
            lemma_due_moves_on(next);
        }
    }
}

/// Whether two pipelines have the same timeline and settings.
pub open spec fn same_settings(a: Schedule, b: Schedule) -> bool {
    &&& a.entries == b.entries
    &&& a.frame_size == b.frame_size
    &&& a.timestep_samples == b.timestep_samples
    &&& a.release_samples == b.release_samples
    &&& a.sample_rate == b.sample_rate
}

/// Renders a timeline of key events into samples.
pub struct Pipeline {
    voice_manager: VoiceManager,
    events: Vec<TimedEvents>,
    sample_rate: u32,
    frame_size: usize,
    timestep_samples: usize,
    release_samples: usize,
    current_sample: usize,
    event_index: usize,
    samples_to_next_event: usize,
    has_more_events: bool,
}

impl View for Pipeline {
    type V = Schedule;

    closed spec fn view(&self) -> Schedule {
        Schedule {
            pool: self.voice_manager@,
            entries: entries_of(self.events@),
            frame_size: self.frame_size as int,
            timestep_samples: self.timestep_samples as int,
            release_samples: self.release_samples as int,
            sample_rate: self.sample_rate as int,
            current_sample: self.current_sample as int,
            event_index: self.event_index as int,
            samples_to_next_event: self.samples_to_next_event as int,
            has_more_events: self.has_more_events,
        }
    }
}

/// The product of two numbers, or the largest `usize` where it is
/// larger.
fn capped_product(a: usize, b: usize) -> (product: usize)
    ensures
        product == capped(a * b),
{
    match a.checked_mul(b) {
        Some(product) => product,
        None => usize::MAX,
    }
}

impl Pipeline {
    /// A pipeline at the start of `events`, with an empty pool. A frame
    /// size of 0 becomes 1, and a sample rate of 0 becomes 1.
    pub fn new(config: PipelineConfig, events: Vec<TimedEvents>) -> (pipeline: Self)
        requires
            config.voice_config.fm_params.well_formed(),
        ensures
            pipeline@.well_formed(),
            pipeline@.entries == entries_of(events@),
            pipeline@.pool.voices.len() == 0,
            pipeline@.pool.harmonics == config.voice_config.fm_params.harmonics@,
            pipeline@.pool.amps == config.voice_config.fm_params.amps@,
            pipeline@.pool.mod_depth == config.voice_config.fm_params.mod_depth,
            pipeline@.pool.attack_samples == config.voice_config.attack_samples,
            pipeline@.pool.decay_samples == config.voice_config.decay_samples,
            pipeline@.pool.sustain_level == config.voice_config.sustain_level,
            pipeline@.pool.release_samples == config.voice_config.release_samples,
            pipeline@.pool.base_frequency == config.base_frequency,
            pipeline@.pool.sample_rate == if config.sample_rate < 1 {
                1
            } else {
                config.sample_rate as int
            },
            pipeline@.sample_rate == config.sample_rate,
            pipeline@.frame_size == if config.frame_size < 1 {
                1
            } else {
                config.frame_size as int
            },
            pipeline@.timestep_samples == config.timestep_samples,
            pipeline@.release_samples == config.voice_config.release_samples,
            pipeline@.current_sample == 0,
            pipeline@.event_index == 0,
            pipeline@.has_more_events == (events@.len() > 0),
            pipeline@.samples_to_next_event == if events@.len() > 0 {
                capped(events@[0].delta * config.timestep_samples)
            } else {
                0
            },
    {
        let release_samples = config.voice_config.release_samples;
        let voice_manager = VoiceManager::new(
            config.voice_config,
            config.base_frequency,
            config.sample_rate,
        );
        let has_more_events = events.len() > 0;
        let samples_to_next_event = if has_more_events {
            capped_product(events[0].delta, config.timestep_samples)
        } else {
            0
        };
        Pipeline {
            voice_manager,
            events,
            sample_rate: config.sample_rate,
            frame_size: if config.frame_size < 1 {
                1
            } else {
                config.frame_size
            },
            timestep_samples: config.timestep_samples,
            release_samples,
            current_sample: 0,
            event_index: 0,
            samples_to_next_event,
            has_more_events,
        }
    }

    /// Whether the timeline has an entry left or a voice is still in the
    /// pool.
    pub fn is_active(&self) -> (active: bool)
        ensures
            active == self@.is_active(),
    {
        self.has_more_events || self.voice_manager.has_active_voices()
    }

    /// The number of voices in the pool.
    pub fn voice_count(&self) -> (count: usize)
        ensures
            count == self@.pool.voices.len(),
    {
        self.voice_manager.voice_count()
    }

    /// The number of samples until the next entry of the timeline is
    /// due; the largest `usize` once the timeline is exhausted.
    pub fn samples_to_next_event(&self) -> (samples: usize)
        ensures
            samples == self@.samples_to_next_event,
    {
        self.samples_to_next_event
    }

    /// The frame size.
    pub fn frame_size(&self) -> (size: usize)
        ensures
            size == self@.frame_size,
    {
        self.frame_size
    }

    /// The sample rate in Hz.
    pub fn sample_rate(&self) -> (rate: u32)
        ensures
            rate == self@.sample_rate,
    {
        self.sample_rate
    }

    /// Dispatches the entries that are due.
    #[verifier::rlimit(50)]
    fn process_events(&mut self)
        requires
            old(self)@.well_formed(),
        ensures
            final(self)@ == old(self)@.due(),
            final(self)@.well_formed(),
            same_settings(final(self)@, old(self)@),
    {
        while self.has_more_events && self.samples_to_next_event == 0
            invariant
                self@.well_formed(),
                self@.due() == old(self)@.due(),
                same_settings(self@, old(self)@),
            decreases self.events@.len() - self.event_index,
        {
            let ghost start = self@;
            let ghost events = start.entries[start.event_index].events;
            let count = self.events[self.event_index].events.len();
            assert(self.events@[self.event_index as int]@ == start.entries[start.event_index]);
            let mut k: usize = 0;
            while k < count
                invariant
                    k <= count,
                    start.well_formed(),
                    start.has_more_events,
                    self@ == (Schedule { pool: self@.pool, ..start }),
                    self@.pool.well_formed(),
                    events == start.entries[start.event_index].events,
                    self.events@[self.event_index as int].events@ == events,
                    count == events.len(),
                    self@.pool == dispatched(start.pool, events, k as int),
                decreases count - k,
            {
                let note = self.events[self.event_index].events[k].note;
                let direction = self.events[self.event_index].events[k].direction;
                self.voice_manager.handle_event(&note, direction);
                k += 1;
            }
            self.event_index += 1;
            if self.event_index >= self.events.len() {
                self.has_more_events = false;
                self.samples_to_next_event = usize::MAX;
            } else {
                assert(self.events@[self.event_index as int]@ == start.entries[start.event_index
                    + 1]);
                self.samples_to_next_event = capped_product(
                    self.events[self.event_index].delta,
                    self.timestep_samples,
                );
            }
        }
    }

    /// Moves time on by `samples`.
    fn advance_time(&mut self, samples: usize)
        requires
            old(self)@.well_formed(),
        ensures
            final(self)@ == old(self)@.advanced(samples as int),
            final(self)@.well_formed(),
            same_settings(final(self)@, old(self)@),
    {
        self.current_sample = self.current_sample.saturating_add(samples);
        if self.has_more_events && self.samples_to_next_event > 0 {
            self.samples_to_next_event = self.samples_to_next_event.saturating_sub(samples);
        }
    }

    /// Renders one frame: the entries that are due are dispatched, the
    /// pool renders the frame, and time moves on by its length.
    pub fn process_frame(&mut self, buffer: &mut [i32])
        requires
            old(self)@.well_formed(),
        ensures
            final(self)@ == old(self)@.frame(old(buffer)@.len()),
            final(self)@.well_formed(),
            same_settings(final(self)@, old(self)@),
            final(buffer)@.len() == old(buffer)@.len(),
            forall|j: int|
                0 <= j < final(buffer)@.len() ==> #[trigger] final(buffer)@[j] == old(self)@.frame_sample(
                    j as nat,
                ),
            forall|j: int|
                0 <= j < final(buffer)@.len() ==> -CLIP_LIMIT <= #[trigger] final(buffer)@[j]
                    <= CLIP_LIMIT,
    {
        self.process_events();
        self.voice_manager.process_frame(buffer);
        self.advance_time(buffer.len());
    }

    /// The number of frames that the main loop of a render may take.
    fn frame_budget(&self) -> (budget: usize)
        requires
            self@.well_formed(),
        ensures
            budget == self@.frame_budget(),
    {
        let count = self.events.len();
        let mut total: usize = 0;
        let mut i: usize = 0;
        while i < count
            invariant
                i <= count,
                count == self.events@.len(),
                total == total_delta(entries_of(self.events@), i as int),
            decreases count - i,
        {
            total = total.saturating_add(self.events[i].delta);
            i += 1;
        }
        let timeline = capped_product(total, self.timestep_samples);
        let samples = timeline.saturating_add(capped_product(self.release_samples, 2));
        (samples / self.frame_size).saturating_add(SPARE_FRAMES)
    }

    /// Whether a render goes on.
    fn goes_on(&self, flush: bool) -> (more: bool)
        ensures
            more == self@.goes_on(flush),
    {
        if flush {
            self.voice_manager.has_active_voices()
        } else {
            self.is_active()
        }
    }

    /// Runs at most `budget` frames and appends them to `samples`.
    #[verifier::rlimit(50)]
    fn run(&mut self, samples: &mut Vec<i32>, budget: usize, flush: bool)
        requires
            old(self)@.well_formed(),
        ensures
            final(self)@ == old(self)@.run(budget as nat, flush),
            final(self)@.well_formed(),
            same_settings(final(self)@, old(self)@),
            sample_values(final(samples)@) == sample_values(old(samples)@) + old(self)@.run_samples(
                budget as nat,
                flush,
            ),
            forall|j: int|
                old(samples)@.len() <= j < final(samples)@.len() ==> -CLIP_LIMIT
                    <= #[trigger] final(samples)@[j] <= CLIP_LIMIT,
            forall|j: int|
                0 <= j < old(samples)@.len() ==> #[trigger] final(samples)@[j] == old(samples)@[j],
            final(samples)@.len() >= old(samples)@.len(),
    {
        let mut frame_buffer: Vec<i32> = vec![0i32; self.frame_size];
        let mut left: usize = budget;
        let ghost mut done: Seq<int> = Seq::empty();
        assert(sample_values(samples@) + done =~= sample_values(samples@));
        while left > 0 && self.goes_on(flush)
            invariant
                self@.well_formed(),
                same_settings(self@, old(self)@),
                frame_buffer@.len() == self@.frame_size,
                left <= budget,
                self@.run(left as nat, flush) == old(self)@.run(budget as nat, flush),
                sample_values(samples@) == sample_values(old(samples)@) + done,
                done + self@.run_samples(left as nat, flush) == old(self)@.run_samples(
                    budget as nat,
                    flush,
                ),
                samples@.len() >= old(samples)@.len(),
                forall|j: int|
                    old(samples)@.len() <= j < samples@.len() ==> -CLIP_LIMIT
                        <= #[trigger] samples@[j] <= CLIP_LIMIT,
                forall|j: int|
                    0 <= j < old(samples)@.len() ==> #[trigger] samples@[j] == old(samples)@[j],
            decreases left,
        {
            let ghost before = self@;
            let ghost had = samples@;
            let ghost frame = before.frame_samples();
            self.process_frame(frame_buffer.as_mut_slice());
            samples.extend_from_slice(frame_buffer.as_slice());
            proof {
                let rest = self@.run_samples((left - 1) as nat, flush);
                assert(before.run_samples(left as nat, flush) == frame + rest);
                assert(before.run(left as nat, flush) == self@.run((left - 1) as nat, flush));
                assert(sample_values(frame_buffer@) =~= frame);
                assert(sample_values(samples@) =~= sample_values(had) + frame);
                assert(sample_values(old(samples)@) + (done + frame) =~= (sample_values(
                    old(samples)@,
                ) + done) + frame);
                assert((done + frame) + rest =~= done + (frame + rest));
                done = done + frame;
            }
            left -= 1;
        }
        proof {
            assert(self@.run_samples(left as nat, flush) =~= Seq::<int>::empty());
            assert(done + Seq::<int>::empty() =~= done);
        }
    }

    /// Renders the whole timeline. Frames are rendered while the
    /// pipeline is active, but no more than the length of the timeline
    /// and two releases take, and `SPARE_FRAMES` more; then up to
    /// `TRAILING_FRAMES` frames let the voices fade that are left. Every
    /// sample lies within one and a half times full scale.
    pub fn generate_samples(&mut self) -> (samples: Vec<i32>)
        requires
            old(self)@.well_formed(),
        ensures
            sample_values(samples@) == old(self)@.rendering(),
            final(self)@ == old(self)@.rendered(),
            final(self)@.well_formed(),
            same_settings(final(self)@, old(self)@),
            forall|j: int|
                0 <= j < samples@.len() ==> -CLIP_LIMIT <= #[trigger] samples@[j] <= CLIP_LIMIT,
    {
        let mut samples: Vec<i32> = Vec::new();
        let budget = self.frame_budget();
        assert(sample_values(samples@) =~= Seq::<int>::empty());
        self.run(&mut samples, budget, false);
        assert(sample_values(samples@) =~= old(self)@.run_samples(budget as nat, false));
        self.run(&mut samples, TRAILING_FRAMES, true);
        samples
    }

    /// Renders the whole timeline into the image of a sound file of 16
    /// bits a sample at the pipeline's sample rate. There is no image
    /// where the rendering is too long for such a file.
    pub fn generate_wav(&mut self) -> (image: Option<Vec<u8>>)
        requires
            old(self)@.well_formed(),
        ensures
            final(self)@ == old(self)@.rendered(),
            final(self)@.well_formed(),
            match image {
                Some(bytes) => wav_fits(
                    old(self)@.rendering().len() as int,
                    old(self)@.sample_rate,
                ) && bytes@ == wav_image(old(self)@.rendering(), old(self)@.sample_rate),
                None => !wav_fits(old(self)@.rendering().len() as int, old(self)@.sample_rate),
            },
    {
        let samples = self.generate_samples();
        write_wav_16bit(samples.as_slice(), self.sample_rate)
    }
}

} // verus!
