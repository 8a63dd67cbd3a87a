use wav_derivative::channels::{reinterleave, split};

#[test]
fn split_alternates_between_the_channels() {
    let (left, right) = split(&vec![1, 2, 3, 4, 5, 6]);
    assert_eq!(left, vec![1, 3, 5]);
    assert_eq!(right, vec![2, 4, 6]);
}

#[test]
fn split_of_an_even_count_gives_two_halves() {
    let samples: Vec<i16> = (0..1000).collect();
    let (left, right) = split(&samples);
    assert_eq!(left.len(), 500);
    assert_eq!(right.len(), 500);
    assert_eq!(left[499], 998);
    assert_eq!(right[499], 999);
}

#[test]
fn split_of_an_odd_count_leaves_the_left_channel_longer() {
    let (left, right) = split(&vec![7, 8, 9]);
    assert_eq!(left, vec![7, 9]);
    assert_eq!(right, vec![8]);
}

#[test]
fn split_of_nothing_gives_two_empty_channels() {
    let (left, right) = split(&Vec::new());
    assert!(left.is_empty());
    assert!(right.is_empty());
}

#[test]
fn split_of_one_sample_gives_it_to_the_left_channel() {
    let (left, right) = split(&vec![-5]);
    assert_eq!(left, vec![-5]);
    assert!(right.is_empty());
}

#[test]
fn split_does_not_change_its_input() {
    let samples: Vec<i16> = vec![1, 2, 3, 4];
    let _ = split(&samples);
    assert_eq!(samples, vec![1, 2, 3, 4]);
}

#[test]
fn reinterleave_alternates_left_and_right() {
    let stream = reinterleave(&vec![1, 3, 5], &vec![2, 4, 6]);
    assert_eq!(stream, vec![1, 2, 3, 4, 5, 6]);
}

#[test]
fn reinterleave_stops_with_the_shorter_channel() {
    assert_eq!(reinterleave(&vec![1, 3, 5], &vec![2]), vec![1, 2]);
    assert_eq!(reinterleave(&vec![1], &vec![2, 4, 6]), vec![1, 2]);
    assert_eq!(reinterleave(&vec![1, 3], &Vec::new()), Vec::<i16>::new());
}

#[test]
fn reinterleave_restores_an_even_sequence() {
    let samples: Vec<i16> = vec![10, -20, 30, -40, i16::MAX, i16::MIN];
    let (left, right) = split(&samples);
    assert_eq!(reinterleave(&left, &right), samples);
}

#[test]
fn reinterleave_restores_a_pair() {
    let samples: Vec<i16> = vec![-1, 1];
    let (left, right) = split(&samples);
    assert_eq!(reinterleave(&left, &right), samples);
}

#[test]
fn reinterleave_after_split_drops_the_last_of_an_odd_sequence() {
    let (left, right) = split(&vec![1, 2, 3, 4, 5]);
    assert_eq!(reinterleave(&left, &right), vec![1, 2, 3, 4]);
}

#[test]
fn split_restores_the_channels_of_an_interleaved_stream() {
    let left: Vec<i16> = vec![100, 200, 300];
    let right: Vec<i16> = vec![-100, -200, -300];
    let (left_again, right_again) = split(&reinterleave(&left, &right));
    assert_eq!(left_again, left);
    assert_eq!(right_again, right);
}
