//! Real-time signal-processing core of a software-defined-radio receiver:
//! a Q1.14 fixed-point numeric kernel with table-driven trigonometry, a
//! 256-point in-place FFT, an NCO-based frequency shifter with decimation,
//! AM/FM demodulators, and the capture/dispatch/worker pipeline state
//! machines that move sample blocks between the two execution contexts.

pub mod capture;
pub mod complex;
pub mod demod;
pub mod dispatch;
pub mod fft;
pub mod gcd;
pub mod number;
pub mod shift;

use vstd::prelude::*;

verus! {

/// Input sample rate of the pipeline, in samples per second.
pub const SAMPLE_RATE: usize = 192_000;

} // verus!
