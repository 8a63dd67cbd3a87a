//! The pipeline stages on decoded wave data.
//!
//! A container reader hands over the samples of a wave file as a
//! `wav::BitDepth`, which holds them at one of several bit depths. Only
//! 16-bit signed PCM is supported here: data of any other depth is refused
//! with [`PipelineError::UnsupportedBitDepth`], and what comes out is
//! 16-bit data again.

use vstd::prelude::*;
use wav::BitDepth;
use crate::blocks::{blocks, left_channel_blocks, views};
use crate::channels::{left_channel, right_channel, split};
use crate::difference::{difference_stream, finite_difference_samples};
use crate::error::PipelineError;

verus! {

/// `wav::BitDepth`, the decoded samples of a wave file. It is opaque here:
/// all that is known of a value is what [`sixteen_bit_samples`] says.
#[verifier::external_type_specification]
#[verifier::external_body]
pub struct ExBitDepth(wav::BitDepth);

/// The 16-bit samples that `data` holds, in order, or `None` where it holds
/// samples of another depth or none at all. This is what
/// `BitDepth::as_sixteen` returns, as a sequence.
pub uninterp spec fn sixteen_bit_samples(data: BitDepth) -> Option<Seq<i16>>;

/// Assumed of `wav::BitDepth::as_sixteen`: it returns the vector inside the
/// `Sixteen` variant, and `None` for every other variant.
pub assume_specification[ BitDepth::as_sixteen ](data: &BitDepth) -> (samples: Option<&Vec<i16>>)
    ensures
        match samples {
            Some(samples) => sixteen_bit_samples(*data) == Some(samples@),
            None => sixteen_bit_samples(*data) is None,
        },
;

/// Assumed of `wav::BitDepth::from` on a vector of `i16`: it makes the
/// `Sixteen` variant around the vector as it is, so that `as_sixteen` on the
/// result returns the same samples.
#[verifier::external_body]
fn sixteen_bit(samples: Vec<i16>) -> (data: BitDepth)
    ensures
        sixteen_bit_samples(data) == Some(samples@),
{
    BitDepth::from(samples)
}

/// Separates 16-bit wave data into its left and right channel.
pub fn construct_channels(data: &BitDepth) -> (channels: Result<
    (Vec<i16>, Vec<i16>),
    PipelineError,
>)
    ensures
        match sixteen_bit_samples(*data) {
            Some(samples) => channels matches Ok((left, right)) && left@ == left_channel(samples)
                && right@ == right_channel(samples),
            None => channels matches Err(PipelineError::UnsupportedBitDepth),
        },
{
    match data.as_sixteen() {
        Some(samples) => Ok(split(samples)),
        None => Err(PipelineError::UnsupportedBitDepth),
    }
}

/// Computes the difference output for 16-bit wave data: the first
/// differences of each channel, re-interleaved, as 16-bit wave data again.
///
/// Where one channel is a sample longer than the other, its last sample
/// has no part in the output.
pub fn finite_difference(data: &BitDepth) -> (output: Result<BitDepth, PipelineError>)
    ensures
        match sixteen_bit_samples(*data) {
            Some(samples) => output matches Ok(stream) && sixteen_bit_samples(stream) == Some(
                difference_stream(samples),
            ),
            None => output matches Err(PipelineError::UnsupportedBitDepth),
        },
{
    match data.as_sixteen() {
        Some(samples) => Ok(sixteen_bit(finite_difference_samples(samples))),
        None => Err(PipelineError::UnsupportedBitDepth),
    }
}

/// Prepares the spectral path for 16-bit wave data: splits the samples and
/// cuts the left channel into blocks of one second each, for the caller to
/// transform.
///
/// Data of another depth is refused first; then both channels must hold the
/// same number of samples.
pub fn spectral_blocks(data: &BitDepth, sample_rate: u32) -> (cut: Result<
    Vec<Vec<i16>>,
    PipelineError,
>)
    requires
        sample_rate > 0,
    ensures
        match (sixteen_bit_samples(*data), cut) {
            (Some(samples), Ok(cut)) => samples.len() % 2 == 0 && views(cut@) == blocks(
                left_channel(samples),
                sample_rate as nat,
            ),
            (Some(samples), Err(error)) => samples.len() % 2 == 1 && error
                == PipelineError::ChannelLengthMismatch,
            (None, Ok(_)) => false,
            (None, Err(error)) => error == PipelineError::UnsupportedBitDepth,
        },
{
    match data.as_sixteen() {
        Some(samples) => left_channel_blocks(samples, sample_rate),
        None => Err(PipelineError::UnsupportedBitDepth),
    }
}

} // verus!
