//! Signal generation and note scheduling for an offline polyphonic
//! synthesizer, in fixed-point arithmetic.
//!
//! Amplitudes and samples are 32-bit integers in units of 1/65536
//! ([`fixed::ONE`] is full scale); oscillator phases are fractions of a
//! turn in units of 2^-32.

pub mod analysis;
pub mod clip;
pub mod fixed;
pub mod generator;
pub mod pipeline;
pub mod sine;
pub mod text;
pub mod wav;
