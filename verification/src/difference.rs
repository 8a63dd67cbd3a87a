//! First-order finite differences of a channel, and their inverse.
//!
//! All arithmetic is 16-bit two's-complement: a difference or a sum that
//! leaves the range of `i16` wraps around and is never clamped. A channel
//! can therefore always be recovered from its first sample and its
//! differences.

use vstd::prelude::*;
use crate::channels::{interleaved, left_channel, paired_len, reinterleave, right_channel, split};

verus! {

/// The 16-bit signed integer that is congruent to `value` modulo 2^16.
pub open spec fn wrap16(value: int) -> i16 {
    ((value + 0x8000) % 0x1_0000 - 0x8000) as i16
}

/// The backward first differences of `channel`: element `i` is
/// `channel[i + 1] - channel[i]`, wrapped to 16 bits. The first sample has
/// no predecessor, so the result is one element shorter than the channel
/// (and empty for an empty channel).
pub open spec fn differences(channel: Seq<i16>) -> Seq<i16> {
    Seq::new(
        if channel.len() == 0 {
            0
        } else {
            (channel.len() - 1) as nat
        },
        |i: int| wrap16(channel[i + 1] - channel[i]),
    )
}

/// The channel that starts with `first` and whose every further sample is
/// its predecessor plus the next difference, wrapped to 16 bits.
pub open spec fn reconstructed(first: i16, differences: Seq<i16>) -> Seq<i16>
    decreases differences.len(),
{
    if differences.len() == 0 {
        seq![first]
    } else {
        let earlier = reconstructed(first, differences.drop_last());
        earlier.push(wrap16(earlier.last() + differences.last()))
    }
}

/// The difference output for a combined two-channel sequence: the
/// differences of the left channel interleaved with those of the right one.
pub open spec fn difference_stream(samples: Seq<i16>) -> Seq<i16> {
    interleaved(differences(left_channel(samples)), differences(right_channel(samples)))
}

/// Computes the backward first differences of a channel.
pub fn difference(channel: &Vec<i16>) -> (diffs: Vec<i16>)
    ensures
        diffs@ == differences(channel@),
{
    let mut diffs: Vec<i16> = Vec::new();
    let mut i: usize = 0;
    while i + 1 < channel.len()
        invariant
            i == 0 || i < channel.len(),
            diffs.len() == i,
            forall|k: int|
                0 <= k < diffs.len() ==> diffs[k] == wrap16(channel[k + 1] - channel[k]),
        decreases channel.len() - i,
    {
        diffs.push(channel[i + 1].wrapping_sub(channel[i]));
        i += 1;
    }
    diffs
}

/// Rebuilds a channel from its first sample and its differences by
/// cumulative wraparound addition.
pub fn reconstruct(first: i16, diffs: &Vec<i16>) -> (channel: Vec<i16>)
    ensures
        channel@ == reconstructed(first, diffs@),
{
    let mut channel: Vec<i16> = Vec::new();
    channel.push(first);
    let mut current: i16 = first;
    let mut i: usize = 0;
    assert(diffs@.take(0) =~= Seq::<i16>::empty());
    while i < diffs.len()
        invariant
            i <= diffs.len(),
            channel@ == reconstructed(first, diffs@.take(i as int)),
            channel.len() == i + 1,
            current == channel[i as int],
        decreases diffs.len() - i,
    {
        current = current.wrapping_add(diffs[i]);
        channel.push(current);
        assert(diffs@.take(i + 1).drop_last() =~= diffs@.take(i as int));
        i += 1;
    }
    assert(diffs@.take(diffs.len() as int) =~= diffs@);
    channel
}

/// Computes the difference output for a combined two-channel sequence:
/// splits it, differences each channel on its own, and re-interleaves the
/// two results.
pub fn finite_difference_samples(samples: &Vec<i16>) -> (stream: Vec<i16>)
    ensures
        stream@ == difference_stream(samples@),
{
    let (left, right) = split(samples);
    let left_diffs = difference(&left);
    let right_diffs = difference(&right);
    reinterleave(&left_diffs, &right_diffs)
}

/// Wrapping changes a value by a multiple of 2^16 and by nothing else: a
/// value that fits in 16 bits stays as it is.
pub proof fn lemma_wrap16(value: int)
    ensures
        (wrap16(value) - value) % 0x1_0000 == 0,
        i16::MIN <= value <= i16::MAX ==> wrap16(value) == value,
{
}

/// A reconstructed channel has one sample more than there are differences,
/// and starts with the given first sample.
pub proof fn lemma_reconstructed_shape(first: i16, differences: Seq<i16>)
    ensures
        reconstructed(first, differences).len() == differences.len() + 1,
        reconstructed(first, differences)[0] == first,
    decreases differences.len(),
{
    if differences.len() > 0 {
        lemma_reconstructed_shape(first, differences.drop_last());
    }
}

/// Each sample of a reconstructed channel after the first is its
/// predecessor plus the difference between them, wrapped to 16 bits.
pub proof fn lemma_reconstructed_step(first: i16, differences: Seq<i16>, i: int)
    requires
        0 <= i < differences.len(),
    ensures
        reconstructed(first, differences).len() == differences.len() + 1,
        reconstructed(first, differences)[i + 1] == wrap16(
            reconstructed(first, differences)[i] + differences[i],
        ),
    decreases differences.len(),
{
    let shorter = differences.drop_last();
    lemma_reconstructed_shape(first, differences);
    lemma_reconstructed_shape(first, shorter);
    if i < differences.len() - 1 {
        lemma_reconstructed_step(first, shorter, i);
    }
}

/// Differencing a non-empty channel and reconstructing from its first
/// sample gives the channel back, whatever its values: wraparound loses
/// nothing.
pub proof fn lemma_difference_round_trip(channel: Seq<i16>)
    requires
        channel.len() >= 1,
    ensures
        reconstructed(channel[0], differences(channel)) == channel,
    decreases channel.len(),
{
    let diffs = differences(channel);
    if channel.len() == 1 {
        assert(reconstructed(channel[0], diffs) =~= channel);
    } else {
        let shorter = channel.drop_last();
        assert(diffs.drop_last() =~= differences(shorter));
        lemma_difference_round_trip(shorter);
        let n = channel.len() as int;
        assert(shorter.last() == channel[n - 2]);
        assert(diffs.last() == wrap16(channel[n - 1] - channel[n - 2]));
        assert(reconstructed(channel[0], diffs) =~= channel);
    }
}

/// Reconstructing a channel from any first sample and any differences, and
/// differencing the result, gives the differences back.
pub proof fn lemma_reconstruct_then_difference(first: i16, diffs: Seq<i16>)
    ensures
        differences(reconstructed(first, diffs)) == diffs,
{
    let channel = reconstructed(first, diffs);
    lemma_reconstructed_shape(first, diffs);
    assert forall|i: int| 0 <= i < diffs.len() implies #[trigger] differences(channel)[i]
        == diffs[i] by {
        lemma_reconstructed_step(first, diffs, i);
    }
    assert(differences(channel) =~= diffs);
}

/// The differences of a channel whose samples are all the same value are
/// all zero.
pub proof fn lemma_constant_channel(channel: Seq<i16>, value: i16)
    requires
        forall|i: int| 0 <= i < channel.len() ==> channel[i] == value,
    ensures
        differences(channel).len() == if channel.len() == 0 {
            0
        } else {
            channel.len() - 1
        },
        forall|i: int| 0 <= i < differences(channel).len() ==> differences(channel)[i] == 0,
{
}

/// The difference output holds two values for each pair of samples after
/// the first pair, and each value is the wrapped difference between a sample
/// and the sample two places before it in the combined sequence.
pub proof fn lemma_difference_stream_elements(samples: Seq<i16>)
    ensures
        difference_stream(samples).len() == if samples.len() < 2 {
            0
        } else {
            2 * (samples.len() / 2 - 1)
        },
        forall|i: int|
            0 <= i < difference_stream(samples).len() ==> difference_stream(samples)[i]
                == wrap16(samples[i + 2] - samples[i]),
{
    let left = differences(left_channel(samples));
    let right = differences(right_channel(samples));
    assert(paired_len(left, right) == right.len());
    assert forall|i: int| 0 <= i < difference_stream(samples).len() implies difference_stream(
        samples,
    )[i] == wrap16(samples[i + 2] - samples[i]) by {
        let k = i / 2;
        if i % 2 == 0 {
            assert(left[k] == wrap16(left_channel(samples)[k + 1] - left_channel(samples)[k]));
        } else {
            assert(right[k] == wrap16(
                right_channel(samples)[k + 1] - right_channel(samples)[k],
            ));
        }
    }
}

} // verus!
