use rustfft::num_complex::Complex;
use rustfft::FftPlanner;
use wav_derivative::blocks::split_blocks;
use wav_derivative::spectral::{aggregate, SpectralAggregator};

type Bin = Complex<f32>;

fn zero() -> Bin {
    Complex { re: 0.0, im: 0.0 }
}

fn forward_transform(block: &Vec<i16>) -> Vec<Bin> {
    let mut frame: Vec<Bin> = block.iter().map(|s| Complex { re: *s as f32, im: 0.0 }).collect();
    FftPlanner::new().plan_fft_forward(block.len()).process(&mut frame);
    frame
}

fn spectrum_of(channel: &Vec<i16>, sample_rate: usize) -> Vec<Bin> {
    let frames: Vec<Vec<Bin>> =
        split_blocks(channel, sample_rate).iter().map(forward_transform).collect();
    aggregate(&frames, sample_rate, zero(), |a: Bin, b: Bin| a + b)
}

fn tone(samples: usize, frequency: f64, sample_rate: f64, amplitude: f64) -> Vec<i16> {
    (0..samples)
        .map(|n| {
            let phase = 2.0 * std::f64::consts::PI * frequency * (n as f64) / sample_rate;
            (amplitude * phase.sin()).round() as i16
        })
        .collect()
}

fn magnitude(bin: &Bin) -> f64 {
    ((bin.re as f64).powi(2) + (bin.im as f64).powi(2)).sqrt()
}

#[test]
fn a_new_aggregator_is_all_zero() {
    let aggregator = SpectralAggregator::new(4, 0i64);
    assert_eq!(aggregator.block_size(), 4);
    assert_eq!(aggregator.spectrum(), &vec![0, 0, 0, 0]);
    assert_eq!(aggregator.into_spectrum(), vec![0, 0, 0, 0]);
}

#[test]
fn a_new_aggregator_without_bins_is_empty() {
    let aggregator = SpectralAggregator::new(0, 0i64);
    assert_eq!(aggregator.block_size(), 0);
    assert!(aggregator.into_spectrum().is_empty());
}

#[test]
fn accumulate_adds_bin_by_bin() {
    let mut aggregator = SpectralAggregator::new(3, 0i64);
    let plus = |a: i64, b: i64| a + b;
    aggregator.accumulate(&vec![1, 2, 3], &plus);
    assert_eq!(aggregator.spectrum(), &vec![1, 2, 3]);
    aggregator.accumulate(&vec![10, 20, 30], &plus);
    assert_eq!(aggregator.spectrum(), &vec![11, 22, 33]);
    aggregator.accumulate(&vec![-11, -22, -33], &plus);
    assert_eq!(aggregator.into_spectrum(), vec![0, 0, 0]);
}

#[test]
fn accumulate_hands_the_old_value_first() {
    let mut aggregator = SpectralAggregator::new(2, 100i64);
    aggregator.accumulate(&vec![1, 2], &|old: i64, new: i64| old - new);
    assert_eq!(aggregator.into_spectrum(), vec![99, 98]);
}

#[test]
fn aggregate_sums_all_frames() {
    let frames: Vec<Vec<i64>> = vec![vec![1, 2], vec![10, 20], vec![100, 200]];
    assert_eq!(aggregate(&frames, 2, 0, |a: i64, b: i64| a + b), vec![111, 222]);
}

#[test]
fn aggregate_sums_and_does_not_average() {
    let frames: Vec<Vec<i64>> = vec![vec![6], vec![6], vec![6]];
    assert_eq!(aggregate(&frames, 1, 0, |a: i64, b: i64| a + b), vec![18]);
}

#[test]
fn aggregate_goes_through_the_frames_in_order() {
    let frames: Vec<Vec<i64>> = vec![vec![1], vec![2], vec![3]];
    assert_eq!(aggregate(&frames, 1, 0, |old: i64, new: i64| old * 10 + new), vec![123]);
}

#[test]
fn aggregate_of_no_frame_is_all_zero() {
    let frames: Vec<Vec<i64>> = Vec::new();
    assert_eq!(aggregate(&frames, 3, 0, |a: i64, b: i64| a + b), vec![0, 0, 0]);
}

#[test]
fn spectrum_of_one_silent_block_is_all_zero() {
    let sample_rate = 44100;
    let spectrum = spectrum_of(&vec![0; sample_rate], sample_rate);
    assert_eq!(spectrum.len(), sample_rate);
    assert!(spectrum.iter().all(|bin| bin.re == 0.0 && bin.im == 0.0));
}

#[test]
fn spectrum_of_a_short_channel_is_all_zero() {
    let sample_rate = 44100;
    let channel = tone(sample_rate - 1, 440.0, sample_rate as f64, 10000.0);
    let spectrum = spectrum_of(&channel, sample_rate);
    assert_eq!(spectrum.len(), sample_rate);
    assert!(spectrum.iter().all(|bin| bin.re == 0.0 && bin.im == 0.0));
}

#[test]
fn spectrum_of_an_empty_channel_is_all_zero() {
    let spectrum = spectrum_of(&Vec::new(), 8);
    assert_eq!(spectrum, vec![zero(); 8]);
}

#[test]
fn spectrum_of_a_pure_tone_peaks_at_its_frequency() {
    let sample_rate = 44100;
    let amplitude = 10000.0;
    let channel = tone(2 * sample_rate, 440.0, sample_rate as f64, amplitude);
    assert_eq!(channel.len(), 88200);
    let spectrum = spectrum_of(&channel, sample_rate);
    assert_eq!(spectrum.len(), sample_rate);

    let expected = 2.0 * amplitude * (sample_rate as f64) / 2.0;
    let peak = magnitude(&spectrum[440]);
    let mirror = magnitude(&spectrum[sample_rate - 440]);
    assert!((peak - expected).abs() < 0.001 * expected);
    assert!((mirror - expected).abs() < 0.001 * expected);
    for (bin, value) in spectrum.iter().enumerate() {
        if bin != 440 && bin != sample_rate - 440 {
            assert!(magnitude(value) < 0.001 * expected);
        }
    }
}

#[test]
fn spectrum_of_two_equal_blocks_is_twice_that_of_one() {
    let block: Vec<i16> = vec![100, -50, 25, 0, -100, 50, -25, 0];
    let twice: Vec<i16> = [block.clone(), block.clone()].concat();
    let one = spectrum_of(&block, 8);
    let two = spectrum_of(&twice, 8);
    for bin in 0..8 {
        assert_eq!(two[bin], one[bin] + one[bin]);
    }
}

#[test]
fn spectrum_of_a_constant_block_is_its_sum_in_the_first_bin() {
    let spectrum = spectrum_of(&vec![3; 8], 8);
    assert!((spectrum[0].re - 24.0).abs() < 0.001);
    for bin in 1..8 {
        assert!(magnitude(&spectrum[bin]) < 0.001);
    }
}

#[test]
fn trailing_samples_do_not_change_the_spectrum() {
    let sample_rate = 1000;
    let whole = tone(3 * sample_rate, 50.0, sample_rate as f64, 8000.0);
    let expected = spectrum_of(&whole, sample_rate);
    for r in [1usize, 500, 999] {
        let mut longer = whole.clone();
        longer.extend(std::iter::repeat(i16::MAX).take(r));
        assert_eq!(split_blocks(&longer, sample_rate).len(), 3);
        assert_eq!(spectrum_of(&longer, sample_rate), expected);
    }
}
