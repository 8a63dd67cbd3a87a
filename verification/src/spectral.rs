//! Bin-by-bin accumulation of the spectral frames of a channel.
//!
//! A frame is the transform of one block to the frequency domain: one
//! value for each of `block_size` bins. The frames of a channel are summed
//! bin by bin, not averaged, into one accumulated spectrum that starts out
//! all zero.
//!
//! The transform itself, and the arithmetic on bins, belong to the caller:
//! this module is generic in the type of a bin and takes the addition on
//! bins as a function. What it says of a sum, it says in terms of what that
//! function returns.

use vstd::prelude::*;
use crate::blocks::{blocks, lemma_short_channel_has_no_block, views};

verus! {

/// The spectrum in which every one of `block_size` bins holds `zero`.
pub open spec fn zero_spectrum<T>(block_size: nat, zero: T) -> Seq<T> {
    Seq::new(block_size, |i: int| zero)
}

/// Whether `total` can come of adding `frame` to `spectrum` bin by bin with
/// `plus`.
pub open spec fn bin_sums<T, F: Fn(T, T) -> T>(
    plus: F,
    spectrum: Seq<T>,
    frame: Seq<T>,
    total: Seq<T>,
) -> bool {
    &&& total.len() == spectrum.len()
    &&& forall|i: int|
        0 <= i < spectrum.len() ==> plus.ensures((spectrum[i], frame[i]), #[trigger] total[i])
}

/// Whether `partials` lists the spectra that adding `frames` one after
/// another to `start` goes through: `start` first, then the sum after each
/// frame.
pub open spec fn running_sums<T, F: Fn(T, T) -> T>(
    plus: F,
    start: Seq<T>,
    frames: Seq<Seq<T>>,
    partials: Seq<Seq<T>>,
) -> bool {
    &&& partials.len() == frames.len() + 1
    &&& partials[0] == start
    &&& forall|k: int|
        0 <= k < frames.len() ==> bin_sums(plus, partials[k], #[trigger] frames[k], partials[k + 1])
}

/// Whether `total` can come of adding each of `frames` in turn, first to
/// last, to `start`.
pub open spec fn accumulation<T, F: Fn(T, T) -> T>(
    plus: F,
    start: Seq<T>,
    frames: Seq<Seq<T>>,
    total: Seq<T>,
) -> bool {
    exists|partials: Seq<Seq<T>>| #[trigger]
        running_sums(plus, start, frames, partials) && partials.last() == total
}

/// The running bin-by-bin sum of the frames of a channel.
///
/// The aggregator owns one buffer of `block_size` bins and updates it in
/// place, frame by frame.
pub struct SpectralAggregator<T> {
    spectrum: Vec<T>,
}

impl<T: Copy> View for SpectralAggregator<T> {
    type V = Seq<T>;

    /// The accumulated spectrum, one value for each bin.
    closed spec fn view(&self) -> Seq<T> {
        self.spectrum@
    }
}

impl<T: Copy> SpectralAggregator<T> {
    /// Creates an aggregator of `block_size` bins that has seen no frame:
    /// every bin holds `zero`.
    pub fn new(block_size: usize, zero: T) -> (aggregator: Self)
        ensures
            aggregator@ == zero_spectrum(block_size as nat, zero),
    {
        let mut spectrum: Vec<T> = Vec::new();
        let mut i: usize = 0;
        while i < block_size
            invariant
                i <= block_size,
                spectrum.len() == i,
                forall|j: int| 0 <= j < i ==> spectrum[j] == zero,
            decreases block_size - i,
        {
            spectrum.push(zero);
            i += 1;
        }
        SpectralAggregator { spectrum }
    }

    /// The number of bins.
    pub fn block_size(&self) -> (size: usize)
        ensures
            size == self@.len(),
    {
        self.spectrum.len()
    }

    /// Adds `frame` to the accumulated spectrum, bin by bin: each bin
    /// becomes what `plus` returns for its old value and the frame's value
    /// for that bin.
    pub fn accumulate<F: Fn(T, T) -> T>(&mut self, frame: &Vec<T>, plus: &F)
        requires
            frame.len() == old(self)@.len(),
            forall|i: int|
                0 <= i < frame.len() ==> plus.requires((#[trigger] old(self)@[i], frame[i])),
        ensures
            bin_sums(*plus, old(self)@, frame@, final(self)@),
    {
        let mut i: usize = 0;
        while i < frame.len()
            invariant
                i <= frame.len(),
                frame.len() == old(self)@.len(),
                self.spectrum.len() == frame.len(),
                forall|j: int|
                    0 <= j < frame.len() ==> plus.requires(
                        (#[trigger] old(self)@[j], frame[j]),
                    ),
                forall|j: int|
                    0 <= j < i ==> plus.ensures(
                        (old(self)@[j], frame[j]),
                        #[trigger] self.spectrum[j],
                    ),
                forall|j: int| i <= j < frame.len() ==> self.spectrum[j] == old(self)@[j],
            decreases frame.len() - i,
        {
            let sum = plus(self.spectrum[i], frame[i]);
            self.spectrum.set(i, sum);
            i += 1;
        }
    }

    /// The accumulated spectrum.
    pub fn spectrum(&self) -> (spectrum: &Vec<T>)
        ensures
            spectrum@ == self@,
    {
        &self.spectrum
    }

    /// Gives up the aggregator for its accumulated spectrum.
    pub fn into_spectrum(self) -> (spectrum: Vec<T>)
        ensures
            spectrum@ == self@,
    {
        self.spectrum
    }
}

/// Sums the frames of a channel bin by bin, in order, starting from a
/// spectrum of `block_size` bins that all hold `zero`.
///
/// Without a frame the result is that all-zero spectrum.
pub fn aggregate<T: Copy, F: Fn(T, T) -> T>(
    frames: &Vec<Vec<T>>,
    block_size: usize,
    zero: T,
    plus: F,
) -> (spectrum: Vec<T>)
    requires
        forall|k: int| 0 <= k < frames.len() ==> (#[trigger] frames[k]).len() == block_size,
        forall|a: T, b: T| plus.requires((a, b)),
    ensures
        spectrum.len() == block_size,
        accumulation(plus, zero_spectrum(block_size as nat, zero), views(frames@), spectrum@),
        frames.len() == 0 ==> spectrum@ == zero_spectrum(block_size as nat, zero),
{
    let mut aggregator = SpectralAggregator::new(block_size, zero);
    let ghost start = zero_spectrum(block_size as nat, zero);
    let ghost mut partials: Seq<Seq<T>> = seq![start];
    let mut k: usize = 0;
    while k < frames.len()
        invariant
            k <= frames.len(),
            forall|j: int| 0 <= j < frames.len() ==> (#[trigger] frames[j]).len() == block_size,
            forall|a: T, b: T| plus.requires((a, b)),
            aggregator@.len() == block_size,
            start == zero_spectrum(block_size as nat, zero),
            running_sums(plus, start, views(frames@).take(k as int), partials),
            partials.last() == aggregator@,
        decreases frames.len() - k,
    {
        aggregator.accumulate(&frames[k], &plus);
        proof {
            let longer = partials.push(aggregator@);
            let sooner = views(frames@).take(k + 1);
            assert forall|j: int| 0 <= j < sooner.len() implies bin_sums(
                plus,
                longer[j],
                #[trigger] sooner[j],
                longer[j + 1],
            ) by {
                if j < k {
                    assert(sooner[j] == views(frames@).take(k as int)[j]);
                }
            }
            partials = longer;
        }
        k += 1;
    }
    assert(views(frames@).take(frames.len() as int) =~= views(frames@));
    aggregator.into_spectrum()
}

/// Accumulating no frame leaves the starting spectrum as it is.
pub proof fn lemma_accumulation_of_nothing<T, F: Fn(T, T) -> T>(
    plus: F,
    start: Seq<T>,
    total: Seq<T>,
)
    ensures
        accumulation(plus, start, Seq::<Seq<T>>::empty(), total) <==> total == start,
{
    if total == start {
        assert(running_sums(plus, start, Seq::<Seq<T>>::empty(), seq![start]));
    }
}

/// Accumulating one more frame onto an accumulation is an accumulation of
/// all the frames.
pub proof fn lemma_accumulation_step<T, F: Fn(T, T) -> T>(
    plus: F,
    start: Seq<T>,
    frames: Seq<Seq<T>>,
    earlier: Seq<T>,
    frame: Seq<T>,
    total: Seq<T>,
)
    requires
        accumulation(plus, start, frames, earlier),
        bin_sums(plus, earlier, frame, total),
    ensures
        accumulation(plus, start, frames.push(frame), total),
{
    let partials = choose|partials: Seq<Seq<T>>| #[trigger]
        running_sums(plus, start, frames, partials) && partials.last() == earlier;
    let longer = partials.push(total);
    let more = frames.push(frame);
    assert forall|k: int| 0 <= k < more.len() implies bin_sums(
        plus,
        longer[k],
        #[trigger] more[k],
        longer[k + 1],
    ) by {
        if k < frames.len() {
            assert(more[k] == frames[k]);
        }
    }
    assert(running_sums(plus, start, more, longer));
}

/// Every spectrum that an accumulation goes through has as many bins as
/// the starting one.
proof fn lemma_running_sums_len<T, F: Fn(T, T) -> T>(
    plus: F,
    start: Seq<T>,
    frames: Seq<Seq<T>>,
    partials: Seq<Seq<T>>,
    k: int,
)
    requires
        running_sums(plus, start, frames, partials),
        0 <= k <= frames.len(),
    ensures
        partials[k].len() == start.len(),
    decreases k,
{
    if k > 0 {
        lemma_running_sums_len(plus, start, frames, partials, k - 1);
        assert(bin_sums(plus, partials[k - 1], frames[k - 1], partials[k - 1 + 1]));
    }
}

/// Every accumulated spectrum has as many bins as the starting one.
pub proof fn lemma_accumulation_len<T, F: Fn(T, T) -> T>(
    plus: F,
    start: Seq<T>,
    frames: Seq<Seq<T>>,
    total: Seq<T>,
)
    requires
        accumulation(plus, start, frames, total),
    ensures
        total.len() == start.len(),
{
    let partials = choose|partials: Seq<Seq<T>>| #[trigger]
        running_sums(plus, start, frames, partials) && partials.last() == total;
    lemma_running_sums_len(plus, start, frames, partials, frames.len() as int);
}

/// The spectrum of a channel shorter than one block is all zero, with one
/// bin for each sample of a block, whatever the transform and the addition
/// are: no block is transformed and nothing is added.
pub proof fn lemma_short_channel_spectrum<T, F: Fn(T, T) -> T>(
    plus: F,
    channel: Seq<i16>,
    block_size: nat,
    zero: T,
    frames: Seq<Seq<T>>,
    spectrum: Seq<T>,
)
    requires
        channel.len() < block_size,
        frames.len() == blocks(channel, block_size).len(),
        accumulation(plus, zero_spectrum(block_size, zero), frames, spectrum),
    ensures
        spectrum == zero_spectrum(block_size, zero),
        spectrum.len() == block_size,
        forall|i: int| 0 <= i < spectrum.len() ==> spectrum[i] == zero,
{
    lemma_short_channel_has_no_block(channel, block_size);
    assert(frames =~= Seq::<Seq<T>>::empty());
    lemma_accumulation_of_nothing(plus, zero_spectrum(block_size, zero), spectrum);
}

/// Where every frame is all zero and adding zero to zero gives zero, every
/// spectrum that the accumulation goes through is all zero.
proof fn lemma_running_sums_of_zero_frames<T, F: Fn(T, T) -> T>(
    plus: F,
    block_size: nat,
    zero: T,
    frames: Seq<Seq<T>>,
    partials: Seq<Seq<T>>,
    k: int,
)
    requires
        forall|j: int| 0 <= j < frames.len() ==> #[trigger] frames[j] == zero_spectrum(
            block_size,
            zero,
        ),
        forall|sum: T| plus.ensures((zero, zero), sum) ==> sum == zero,
        running_sums(plus, zero_spectrum(block_size, zero), frames, partials),
        0 <= k <= frames.len(),
    ensures
        partials[k] == zero_spectrum(block_size, zero),
    decreases k,
{
    if k > 0 {
        lemma_running_sums_of_zero_frames(plus, block_size, zero, frames, partials, k - 1);
        assert(bin_sums(plus, partials[k - 1], frames[k - 1], partials[k - 1 + 1]));
        assert(partials[k] =~= zero_spectrum(block_size, zero));
    }
}

/// Where every frame is all zero and adding zero to zero gives zero, the
/// accumulated spectrum is all zero.
pub proof fn lemma_accumulation_of_zero_frames<T, F: Fn(T, T) -> T>(
    plus: F,
    block_size: nat,
    zero: T,
    frames: Seq<Seq<T>>,
    spectrum: Seq<T>,
)
    requires
        forall|j: int| 0 <= j < frames.len() ==> #[trigger] frames[j] == zero_spectrum(
            block_size,
            zero,
        ),
        forall|sum: T| plus.ensures((zero, zero), sum) ==> sum == zero,
        accumulation(plus, zero_spectrum(block_size, zero), frames, spectrum),
    ensures
        spectrum == zero_spectrum(block_size, zero),
{
    let partials = choose|partials: Seq<Seq<T>>| #[trigger]
        running_sums(plus, zero_spectrum(block_size, zero), frames, partials) && partials.last()
            == spectrum;
    lemma_running_sums_of_zero_frames(
        plus,
        block_size,
        zero,
        frames,
        partials,
        frames.len() as int,
    );
}

} // verus!
