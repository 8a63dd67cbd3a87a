//! Cutting a channel into blocks of equal size.
//!
//! A block is the window that one transform to the frequency domain works
//! on: `block_size` samples in a row, one second of audio when
//! `block_size` is the sample rate. The blocks of a channel follow one
//! another from its first sample on; samples after the last whole block
//! belong to no block.

use vstd::prelude::*;
use vstd::arithmetic::div_mod::{
    lemma_basic_div, lemma_fundamental_div_mod, lemma_fundamental_div_mod_converse,
    lemma_mod_bound, lemma_mod_decreases,
};
use vstd::arithmetic::mul::{
    lemma_mul_inequality, lemma_mul_is_commutative, lemma_mul_is_distributive_add_other_way,
    lemma_mul_nonnegative,
};
use crate::channels::{left_channel, split};
use crate::error::PipelineError;

verus! {

/// The largest prefix of `channel` whose length is a multiple of
/// `block_size`.
pub open spec fn truncated(channel: Seq<i16>, block_size: nat) -> Seq<i16> {
    channel.take(channel.len() - channel.len() % block_size)
}

/// The `k`-th block of `channel`: the `block_size` samples from index
/// `k * block_size` on.
pub open spec fn block(channel: Seq<i16>, block_size: nat, k: int) -> Seq<i16> {
    channel.subrange(k * block_size, k * block_size + block_size)
}

/// The whole blocks of `channel`, in order. There are
/// `channel.len() / block_size` of them.
pub open spec fn blocks(channel: Seq<i16>, block_size: nat) -> Seq<Seq<i16>> {
    Seq::new(channel.len() / block_size, |k: int| block(channel, block_size, k))
}

/// The contents of each of `vectors`, in order.
pub open spec fn views<T>(vectors: Seq<Vec<T>>) -> Seq<Seq<T>> {
    Seq::new(vectors.len(), |k: int| vectors[k]@)
}

/// The `k`-th of the whole blocks of a sequence of length `len` lies inside
/// the sequence.
proof fn lemma_block_bounds(len: nat, block_size: nat, k: int)
    requires
        block_size > 0,
        0 <= k < len / block_size,
    ensures
        0 <= k * block_size,
        k * block_size + block_size <= (len / block_size) * block_size,
        (len / block_size) * block_size == len - len % block_size,
        (len / block_size) * block_size <= len,
{
    let count = (len / block_size) as int;
    let size = block_size as int;
    lemma_mul_nonnegative(k, size);
    lemma_mul_inequality(k + 1, count, size);
    lemma_mul_is_distributive_add_other_way(size, k, 1);
    lemma_fundamental_div_mod(len as int, size);
    lemma_mul_is_commutative(size, count);
    lemma_mod_bound(len as int, size);
}

/// Cuts a channel down to the largest prefix whose length is a multiple of
/// `block_size`.
pub fn truncate(channel: &Vec<i16>, block_size: usize) -> (prefix: Vec<i16>)
    requires
        block_size > 0,
    ensures
        prefix@ == truncated(channel@, block_size as nat),
{
    proof {
        lemma_mod_decreases(channel.len() as nat, block_size as nat);
    }
    let kept: usize = channel.len() - channel.len() % block_size;
    let mut prefix: Vec<i16> = Vec::new();
    let mut i: usize = 0;
    while i < kept
        invariant
            i <= kept <= channel.len(),
            prefix.len() == i,
            forall|j: int| 0 <= j < i ==> prefix[j] == channel[j],
        decreases kept - i,
    {
        prefix.push(channel[i]);
        i += 1;
    }
    prefix
}

/// Cuts a channel into its whole blocks of `block_size` samples each.
/// Samples after the last whole block belong to no block.
pub fn split_blocks(channel: &Vec<i16>, block_size: usize) -> (cut: Vec<Vec<i16>>)
    requires
        block_size > 0,
    ensures
        cut.len() == channel.len() / block_size,
        views(cut@) == blocks(channel@, block_size as nat),
{
    let count: usize = channel.len() / block_size;
    let mut cut: Vec<Vec<i16>> = Vec::new();
    let mut k: usize = 0;
    let mut start: usize = 0;
    while k < count
        invariant
            block_size > 0,
            count == channel.len() / block_size,
            k <= count,
            start == k * block_size,
            cut.len() == k,
            forall|j: int|
                0 <= j < k ==> (#[trigger] cut[j])@ == block(channel@, block_size as nat, j),
        decreases count - k,
    {
        proof {
            lemma_block_bounds(channel.len() as nat, block_size as nat, k as int);
        }
        let mut samples: Vec<i16> = Vec::new();
        let mut i: usize = 0;
        while i < block_size
            invariant
                i <= block_size,
                start + block_size <= channel.len(),
                samples.len() == i,
                forall|j: int| 0 <= j < i ==> samples[j] == channel[start + j],
            decreases block_size - i,
        {
            samples.push(channel[start + i]);
            i += 1;
        }
        assert(samples@ =~= block(channel@, block_size as nat, k as int));
        cut.push(samples);
        assert((k + 1) * block_size == k * block_size + block_size) by (nonlinear_arith);
        k += 1;
        start += block_size;
    }
    assert(views(cut@) =~= blocks(channel@, block_size as nat));
    cut
}

/// Prepares the spectral path for a combined two-channel sequence: splits
/// it and cuts the left channel into blocks of one second each.
///
/// Both channels must hold the same number of samples, which is so exactly
/// when the number of combined samples is even.
pub fn left_channel_blocks(samples: &Vec<i16>, sample_rate: u32) -> (cut: Result<
    Vec<Vec<i16>>,
    PipelineError,
>)
    requires
        sample_rate > 0,
    ensures
        match cut {
            Ok(cut) => samples.len() % 2 == 0 && views(cut@) == blocks(
                left_channel(samples@),
                sample_rate as nat,
            ),
            Err(error) => samples.len() % 2 == 1 && error
                == PipelineError::ChannelLengthMismatch,
        },
{
    let (left, right) = split(samples);
    if left.len() != right.len() {
        return Err(PipelineError::ChannelLengthMismatch);
    }
    Ok(split_blocks(&left, sample_rate as usize))
}

/// There are `channel.len() / block_size` blocks. Each holds `block_size`
/// samples, and the `i`-th sample of the `k`-th block is the sample at
/// index `k * block_size + i` of the channel: the blocks follow one another
/// without gap or overlap.
pub proof fn lemma_block_sample(channel: Seq<i16>, block_size: nat, k: int, i: int)
    requires
        0 <= k < channel.len() / block_size,
        0 <= i < block_size,
    ensures
        blocks(channel, block_size).len() == channel.len() / block_size,
        blocks(channel, block_size)[k].len() == block_size,
        0 <= k * block_size + i < channel.len(),
        blocks(channel, block_size)[k][i] == channel[k * block_size + i],
{
    lemma_block_bounds(channel.len(), block_size, k);
}

/// A channel of `k` whole blocks and `r` further samples, `r` less than a
/// block, has exactly `k` blocks, and they are the blocks of its first
/// `k * block_size` samples: the `r` trailing samples are in none of them.
pub proof fn lemma_trailing_samples_dropped(channel: Seq<i16>, block_size: nat, k: nat, r: nat)
    requires
        channel.len() == k * block_size + r,
        r < block_size,
    ensures
        blocks(channel, block_size).len() == k,
        truncated(channel, block_size) == channel.take((k * block_size) as int),
        blocks(channel, block_size) == blocks(channel.take((k * block_size) as int), block_size),
{
    let size = block_size as int;
    let kept = channel.take((k * block_size) as int);
    lemma_mul_nonnegative(k as int, size);
    lemma_fundamental_div_mod_converse(channel.len() as int, size, k as int, r as int);
    lemma_fundamental_div_mod_converse(kept.len() as int, size, k as int, 0);
    assert forall|j: int| 0 <= j < k implies #[trigger] blocks(channel, block_size)[j] == blocks(
        kept,
        block_size,
    )[j] by {
        lemma_block_bounds(kept.len(), block_size, j);
        assert(block(channel, block_size, j) =~= block(kept, block_size, j));
    }
    assert(blocks(channel, block_size) =~= blocks(kept, block_size));
}

/// A channel shorter than one block has no block.
pub proof fn lemma_short_channel_has_no_block(channel: Seq<i16>, block_size: nat)
    requires
        channel.len() < block_size,
    ensures
        blocks(channel, block_size) == Seq::<Seq<i16>>::empty(),
{
    lemma_basic_div(channel.len() as int, block_size as int);
    assert(blocks(channel, block_size) =~= Seq::<Seq<i16>>::empty());
}

} // verus!
