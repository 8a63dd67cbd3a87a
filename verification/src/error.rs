//! Error kinds of the signal pipeline.

use vstd::prelude::*;

verus! {

/// Why a pipeline stage refused its input.
#[derive(Clone, Copy, Debug, PartialEq, Eq, Structural)]
pub enum PipelineError {
    /// The sample data is not 16-bit signed PCM.
    UnsupportedBitDepth,
    /// The two channels do not hold the same number of samples.
    ChannelLengthMismatch,
}

} // verus!
