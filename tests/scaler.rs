use spectrum_visualizer::scaler::scale_fft_output;

fn averaged(input: &[f64], new_len: usize) -> Vec<f64> {
    scale_fft_output(input, new_len, |start: usize, count: usize| {
        input[start..start + count].iter().sum::<f64>() / count as f64
    })
}

#[test]
fn long_enough_target_returns_input() {
    let empty: Vec<f64> = Vec::new();
    assert_eq!(averaged(&empty, 0), empty);
    assert_eq!(averaged(&empty, 5), empty);
    assert_eq!(averaged(&[4.5], 1), vec![4.5]);
    assert_eq!(averaged(&[4.5], 9), vec![4.5]);
    assert_eq!(averaged(&[1.0, -2.0, 3.0], 3), vec![1.0, -2.0, 3.0]);
}

#[test]
fn six_values_into_three_bands() {
    assert_eq!(averaged(&[10.0, 20.0, 30.0, 40.0, 50.0, 60.0], 3), vec![15.0, 35.0, 55.0]);
}

#[test]
fn trailing_remainder_is_dropped() {
    assert_eq!(averaged(&[1.0, 2.0, 3.0, 4.0, 5.0], 2), vec![1.5, 3.5]);
}

#[test]
fn exact_multiple_gives_requested_length() {
    let input: Vec<f64> = (0..12).map(|i| i as f64).collect();
    let out = averaged(&input, 4);
    assert_eq!(out, vec![1.0, 4.0, 7.0, 10.0]);
    let out = averaged(&input, 6);
    assert_eq!(out, vec![0.5, 2.5, 4.5, 6.5, 8.5, 10.5]);
}

#[test]
fn band_of_one_keeps_every_element() {
    let input = [1.0, 2.0, 3.0, 4.0, 5.0];
    assert_eq!(averaged(&input, 3), vec![1.0, 2.0, 3.0, 4.0, 5.0]);
}

#[test]
fn bands_are_handed_to_mean_in_order() {
    let input = [(0usize, 0usize); 10];
    let out = scale_fft_output(&input, 3, |start: usize, count: usize| (start, count));
    assert_eq!(out, vec![(0, 3), (3, 3), (6, 3)]);
}
