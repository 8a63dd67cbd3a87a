//! De-interleaving of a combined two-channel sample sequence, and the
//! inverse operation.
//!
//! Samples are stored alternating by channel: index 0 belongs to the left
//! channel, index 1 to the right one, index 2 to the left one again, and so
//! on.

use vstd::prelude::*;

verus! {

/// The samples at the even indices of `samples`, in order.
///
/// For an odd number of samples this channel is one sample longer than the
/// right one.
pub open spec fn left_channel(samples: Seq<i16>) -> Seq<i16> {
    Seq::new(((samples.len() + 1) / 2) as nat, |i: int| samples[2 * i])
}

/// The samples at the odd indices of `samples`, in order.
pub open spec fn right_channel(samples: Seq<i16>) -> Seq<i16> {
    Seq::new((samples.len() / 2) as nat, |i: int| samples[2 * i + 1])
}

/// The number of samples that both channels have.
pub open spec fn paired_len(left: Seq<i16>, right: Seq<i16>) -> nat {
    if left.len() <= right.len() {
        left.len()
    } else {
        right.len()
    }
}

/// The combined sequence that alternates one sample of `left` with one of
/// `right`, for as long as both channels have a sample.
pub open spec fn interleaved(left: Seq<i16>, right: Seq<i16>) -> Seq<i16> {
    Seq::new(
        2 * paired_len(left, right),
        |i: int|
            if i % 2 == 0 {
                left[i / 2]
            } else {
                right[i / 2]
            },
    )
}

/// Separates a combined sample sequence into its left and right channel.
pub fn split(samples: &Vec<i16>) -> (channels: (Vec<i16>, Vec<i16>))
    ensures
        channels.0@ == left_channel(samples@),
        channels.1@ == right_channel(samples@),
{
    let mut left: Vec<i16> = Vec::new();
    let mut right: Vec<i16> = Vec::new();
    let mut i: usize = 0;
    while i < samples.len()
        invariant
            i <= samples.len(),
            left.len() == (i + 1) / 2,
            right.len() == i / 2,
            forall|k: int| 0 <= k < left.len() ==> left[k] == samples[2 * k],
            forall|k: int| 0 <= k < right.len() ==> right[k] == samples[2 * k + 1],
        decreases samples.len() - i,
    {
        if i % 2 == 0 {
            left.push(samples[i]);
        } else {
            right.push(samples[i]);
        }
        i += 1;
    }
    (left, right)
}

/// Combines two channels into one sequence, alternating one sample of each.
///
/// Where one channel is longer than the other, its surplus samples are left
/// out.
pub fn reinterleave(left: &Vec<i16>, right: &Vec<i16>) -> (samples: Vec<i16>)
    ensures
        samples@ == interleaved(left@, right@),
{
    let pairs: usize = if left.len() <= right.len() {
        left.len()
    } else {
        right.len()
    };
    let mut samples: Vec<i16> = Vec::new();
    let mut k: usize = 0;
    while k < pairs
        invariant
            k <= pairs,
            pairs == paired_len(left@, right@),
            samples.len() == 2 * k,
            forall|i: int|
                0 <= i < samples.len() ==> samples[i] == if i % 2 == 0 {
                    left[i / 2]
                } else {
                    right[i / 2]
                },
        decreases pairs - k,
    {
        samples.push(left[k]);
        samples.push(right[k]);
        k += 1;
    }
    samples
}

/// Splitting a sequence of even length and re-interleaving the two channels
/// gives the sequence back.
pub proof fn lemma_split_reinterleave(samples: Seq<i16>)
    requires
        samples.len() % 2 == 0,
    ensures
        interleaved(left_channel(samples), right_channel(samples)) == samples,
{
    assert(interleaved(left_channel(samples), right_channel(samples)) =~= samples);
}

/// Re-interleaving two channels and splitting the result gives back the
/// part of each channel that the other one has a partner for.
pub proof fn lemma_reinterleave_split(left: Seq<i16>, right: Seq<i16>)
    ensures
        left_channel(interleaved(left, right)) == left.take(paired_len(left, right) as int),
        right_channel(interleaved(left, right)) == right.take(paired_len(left, right) as int),
{
    let n = paired_len(left, right) as int;
    let both = interleaved(left, right);
    assert(left_channel(both) =~= left.take(n));
    assert(right_channel(both) =~= right.take(n));
}

/// After a split the left channel has as many samples as the right one, or
/// one more; they are equally long exactly when the sample count is even.
pub proof fn lemma_channel_lengths(samples: Seq<i16>)
    ensures
        left_channel(samples).len() + right_channel(samples).len() == samples.len(),
        samples.len() % 2 == 0 ==> left_channel(samples).len() == right_channel(samples).len(),
        samples.len() % 2 == 1 ==> left_channel(samples).len() == right_channel(samples).len()
            + 1,
{
}

} // verus!
