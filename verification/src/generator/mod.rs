//! Signal generators: each produces samples frame by frame and reports
//! whether it is still running.

use vstd::prelude::*;

pub mod adsr;
pub mod fm_synth;
pub mod ramp;

pub use ramp::RampGenerator;

verus! {

/// Whether a signal generator will produce further samples.
#[derive(Debug, Clone, Copy, PartialEq, Eq, Structural)]
pub enum GeneratorState {
    /// The generator is still producing samples.
    Running,
    /// The generator has finished; later frames hold its final value.
    Complete,
}

/// What every signal generator offers: it renders one frame at a time,
/// says when it has finished, and can be started over.
pub trait SignalGenerator {
    /// The invariant of the generator's state.
    spec fn well_formed(&self) -> bool;

    /// Whether the generator has finished.
    spec fn finished(&self) -> bool;

    /// Fills `buffer` with the next samples; the length of the buffer is
    /// the frame size. Reports `Complete` when the generator has finished
    /// by the end of this frame.
    fn process(&mut self, buffer: &mut [i32]) -> (state: GeneratorState)
        requires
            old(self).well_formed(),
        ensures
            final(self).well_formed(),
            final(buffer)@.len() == old(buffer)@.len(),
            (state == GeneratorState::Complete) == final(self).finished(),
    ;

    /// Whether the generator has finished.
    fn is_complete(&self) -> (done: bool)
        requires
            self.well_formed(),
        ensures
            done == self.finished(),
    ;

    /// Returns the generator to the state in which it was created.
    fn reset(&mut self)
        requires
            old(self).well_formed(),
        ensures
            final(self).well_formed(),
            !final(self).finished(),
    ;
}

} // verus!
