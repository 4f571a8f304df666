//! A linear ramp from silence to full scale.

use vstd::prelude::*;
use crate::fixed::ONE;
use crate::generator::{GeneratorState, SignalGenerator};

verus! {

/// Rises linearly from 0 to full scale over a fixed number of samples,
/// then holds full scale.
pub struct RampGenerator {
    position: usize,
    duration: usize,
    completed: bool,
}

/// The level of a ramp of `duration` samples at its sample number `index`.
pub open spec fn ramp_level(duration: int, index: int) -> int {
    if index < duration {
        (ONE * index) / (if duration >= 2 { duration - 1 } else { 1 })
    } else {
        ONE as int
    }
}

/// The length in samples of a ramp of `duration_ms` milliseconds at
/// `sample_rate` samples a second: at least one sample.
pub open spec fn ramp_length(duration_ms: int, sample_rate: int) -> int {
    let samples = (duration_ms * sample_rate) / 1000;
    if samples < 1 {
        1
    } else if samples > usize::MAX {
        usize::MAX as int
    } else {
        samples
    }
}

/// The levels of a ramp lie between silence and full scale.
pub proof fn lemma_ramp_level_bounds(duration: int, index: int)
    requires
        1 <= duration,
        0 <= index,
    ensures
        0 <= ramp_level(duration, index) <= ONE,
{
    if index < duration {
        let d = if duration >= 2 { duration - 1 } else { 1 };
        assert(0 <= (65536 * index) / d <= 65536) by (nonlinear_arith)
            requires
                0 <= index <= d,
                d > 0,
        ;
    }
}

impl RampGenerator {
    /// The number of samples rendered since creation or the last reset,
    /// as the generator counts them.
    pub closed spec fn spec_position(&self) -> int {
        self.position as int
    }

    /// The length of the ramp in samples.
    pub closed spec fn spec_duration(&self) -> int {
        self.duration as int
    }

    /// Whether the ramp has reached its end.
    pub closed spec fn spec_completed(&self) -> bool {
        self.completed
    }

    /// A ramp of `duration_ms` milliseconds at `sample_rate` samples a
    /// second, at its first sample.
    pub fn new(duration_ms: u32, sample_rate: u32) -> (ramp: Self)
        ensures
            ramp.well_formed(),
            ramp.spec_position() == 0,
            ramp.spec_duration() == ramp_length(duration_ms as int, sample_rate as int),
            !ramp.spec_completed(),
    {
        assert((duration_ms as u64) * (sample_rate as u64) <= 0xffff_ffff * 0xffff_ffff)
            by (nonlinear_arith)
            requires
                duration_ms as u64 <= 0xffff_ffff,
                sample_rate as u64 <= 0xffff_ffff,
        ;
        let samples: u64 = ((duration_ms as u64) * (sample_rate as u64)) / 1000;
        let duration: usize = if samples < 1 {
            1
        } else if samples > usize::MAX as u64 {
            usize::MAX
        } else {
            samples as usize
        };
        RampGenerator { position: 0, duration, completed: false }
    }

    /// The number of samples rendered so far.
    pub fn position(&self) -> (position: usize)
        ensures
            position == self.spec_position(),
    {
        self.position
    }

    /// The length of the ramp in samples.
    pub fn duration(&self) -> (duration: usize)
        ensures
            duration == self.spec_duration(),
    {
        self.duration
    }
}

impl SignalGenerator for RampGenerator {
    closed spec fn well_formed(&self) -> bool {
        self.duration >= 1
    }

    closed spec fn finished(&self) -> bool {
        self.completed
    }

    /// Renders the next samples of the ramp. Once the ramp has completed
    /// the frame is full scale and the generator does not change; before
    /// that, the position advances by the frame length (stopping at the
    /// largest `usize`) and the ramp completes when it reaches the
    /// duration.
    fn process(&mut self, buffer: &mut [i32]) -> (state: GeneratorState)
        ensures
            final(self).spec_duration() == old(self).spec_duration(),
            old(self).spec_completed() ==> {
                &&& *final(self) == *old(self)
                &&& forall|i: int| 0 <= i < final(buffer)@.len() ==> final(buffer)@[i] == ONE
            },
            !old(self).spec_completed() ==> {
                &&& forall|i: int|
                    0 <= i < final(buffer)@.len() ==> #[trigger] final(buffer)@[i] == ramp_level(
                        old(self).spec_duration(),
                        old(self).spec_position() + i,
                    )
                &&& final(self).spec_position() == if old(self).spec_position() + old(buffer)@.len()
                    > usize::MAX {
                    usize::MAX as int
                } else {
                    old(self).spec_position() + old(buffer)@.len()
                }
                &&& final(self).spec_completed() == (final(self).spec_position()
                    >= old(self).spec_duration())
            },
            final(self).spec_completed() == (state == GeneratorState::Complete),
    {
        let n = buffer.len();
        if self.completed {
            let mut i: usize = 0;
            while i < n
                invariant
                    buffer@.len() == n,
                    i <= n,
                    forall|j: int| 0 <= j < i ==> buffer@[j] == ONE,
                decreases n - i,
            {
                buffer[i] = ONE;
                i += 1;
            }
            return GeneratorState::Complete;
        }
        let remaining: usize = self.duration.saturating_sub(self.position);
        let divisor: u128 = if self.duration >= 2 {
            (self.duration - 1) as u128
        } else {
            1
        };
        let mut i: usize = 0;
        while i < n
            invariant
                buffer@.len() == n,
                i <= n,
                self.duration >= 1,
                *self == *old(self),
                remaining == if self.duration >= self.position {
                    self.duration - self.position
                } else {
                    0
                },
                divisor == if self.duration >= 2 {
                    self.duration - 1
                } else {
                    1
                },
                forall|j: int|
                    0 <= j < i ==> #[trigger] buffer@[j] == ramp_level(
                        self.duration as int,
                        self.position + j,
                    ),
            decreases n - i,
        {
            if i < remaining {
                let index: u128 = (self.position + i) as u128;
                proof {
                    lemma_ramp_level_bounds(self.duration as int, index as int);
                }
                assert(65536 * index <= 65536 * 0x1_0000_0000_0000_0000) by (nonlinear_arith)
                    requires
                        index <= 0x1_0000_0000_0000_0000,
                ;
                let level: u128 = (65536u128 * index) / divisor;
                buffer[i] = level as i32;
            } else {
                buffer[i] = ONE;
            }
            i += 1;
        }
        self.position = self.position.saturating_add(n);
        if self.position >= self.duration {
            self.completed = true;
            GeneratorState::Complete
        } else {
            GeneratorState::Running
        }
    }

    fn is_complete(&self) -> (done: bool)
        ensures
            done == self.spec_completed(),
    {
        self.completed
    }

    /// Returns the ramp to its first sample.
    fn reset(&mut self)
        ensures
            final(self).spec_position() == 0,
            final(self).spec_duration() == old(self).spec_duration(),
            !final(self).spec_completed(),
    {
        self.position = 0;
        self.completed = false;
    }
}

} // verus!
