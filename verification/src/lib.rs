//! Time-frequency analysis of sampled signals: the integer side of a
//! short-time Fourier pipeline and phase vocoder.
//!
//! Everything here is about positions and counts: how a signal is cut into
//! overlapping frames, which spectral bin mirrors which, where an
//! inverse-transformed frame is added into the output, how long frames are
//! batched, and which bin a pitch shift moves a component to. The sample
//! arithmetic itself is left to the caller, who follows these plans.
use vstd::prelude::*;

pub mod binned_histogram;
pub mod convolution;
pub mod correlation;
pub mod fast_fourier;
pub mod fourier_transform;
pub mod histogram;
pub mod phase_vocoder;
pub mod polar;
pub mod short_time_fourier;
pub mod utility;
pub mod window;

verus! {

/// A sample that has been quantised to a whole number.
pub type IntegralSample = i64;

/// Samples per second.
pub type SampleRate = u64;

} // verus!
