//! Computational core of an additive-harmonic waveform synthesizer.
//!
//! Amplitudes, phases and samples are fixed-point integers in millionths
//! (see [`units`]); the trigonometry comes in as a [`sine::SineTable`].
use vstd::prelude::*;

pub mod cache;
pub mod engine;
pub mod keyboard;
pub mod normalize;
pub mod params;
pub mod sine;
pub mod synthesis;
pub mod units;
pub mod voice;

verus! {

/// Logging is configured by the host application; the library itself emits nothing.
pub fn init_logging() {
}

} // verus!
