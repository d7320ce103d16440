//! Which recordings the engine accepts: 16 kHz mono.
use vstd::prelude::*;

use crate::chunks::SAMPLE_RATE;

verus! {

/// Why a recording is refused; the sample rate is checked before the channel count.
pub enum WavProblem {
    /// The sample rate is not 16 kHz.
    WrongSampleRate,
    /// There is more or less than one channel.
    NotMono,
}

/// What, if anything, is wrong with a recording of this sample rate and channel count.
pub fn wav_problem(sample_rate: u32, channels: u16) -> (p: Option<WavProblem>)
    ensures
        p == if sample_rate != SAMPLE_RATE {
            Some(WavProblem::WrongSampleRate)
        } else if channels != 1 {
            Some(WavProblem::NotMono)
        } else {
            None::<WavProblem>
        },
{
    if sample_rate != SAMPLE_RATE {
        Some(WavProblem::WrongSampleRate)
    } else if channels != 1 {
        Some(WavProblem::NotMono)
    } else {
        None
    }
}

/// Whether a recording of this sample rate and channel count is accepted.
pub fn is_16k_mono(sample_rate: u32, channels: u16) -> (b: bool)
    ensures
        b == (sample_rate == SAMPLE_RATE && channels == 1),
{
    wav_problem(sample_rate, channels).is_none()
}

} // verus!
