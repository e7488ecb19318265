use wavelet_spectrogram::signals::schedule::{gather_rows, work_chunks};
use wavelet_spectrogram::signals::transform::{
    convolution_length, convolution_method, kernel_overlap, pad, round_to_power_2, valid_slice,
    ConvolutionMethod,
};
use wavelet_spectrogram::signals::SignalSample;
use wavelet_spectrogram::visualization::resample;

#[test]
fn test_power_rounding() {
    assert_eq!(round_to_power_2(1), 1);
    assert_eq!(round_to_power_2(2), 2);
    assert_eq!(round_to_power_2(3), 4);
    assert_eq!(round_to_power_2(4), 4);
    assert_eq!(round_to_power_2(13), 16);
    assert_eq!(round_to_power_2(16), 16);
    assert_eq!(round_to_power_2(1023), 1024);
    assert_eq!(round_to_power_2(1024), 1024);
    assert_eq!(round_to_power_2(1025), 2048);
    assert_eq!(round_to_power_2(1237), 2048);
    assert_eq!(round_to_power_2(13972497247), 17179869184);
}

#[test]
fn transform_test_power_rounding() {
    assert_eq!(round_to_power_2(1), 1);
    assert_eq!(round_to_power_2(2), 2);
    assert_eq!(round_to_power_2(3), 4);
    assert_eq!(round_to_power_2(4), 4);
    assert_eq!(round_to_power_2(13), 16);
    assert_eq!(round_to_power_2(16), 16);
    assert_eq!(round_to_power_2(1023), 1024);
    assert_eq!(round_to_power_2(1024), 1024);
    assert_eq!(round_to_power_2(1025), 2048);
    assert_eq!(round_to_power_2(1237), 2048);
    assert_eq!(round_to_power_2(13972497247), 17179869184);
}

#[test]
fn power_rounding_stays_within_bounds() {
    for n in 1..5000i64 {
        let p = round_to_power_2(n);
        assert!(n <= p && p < 2 * n);
        assert_eq!(p & (p - 1), 0);
    }
    assert_eq!(round_to_power_2(1 << 62), 1 << 62);
    assert_eq!(round_to_power_2((1 << 61) + 1), 1 << 62);
}

#[test]
fn pad_fills_tail_with_default() {
    assert_eq!(pad(&[1, 2, 3], 6, 0), vec![1, 2, 3, 0, 0, 0]);
    assert_eq!(pad(&[7u8], 1, 9), vec![7]);
    assert_eq!(pad::<i32>(&[], 2, -1), vec![-1, -1]);
}

#[test]
fn overlap_clamps_to_signal() {
    // signal of 4 samples, kernel of 3 taps: the full convolution has 6 outputs
    assert_eq!(kernel_overlap(4, 3, 0), (2, 3));
    assert_eq!(kernel_overlap(4, 3, 1), (1, 3));
    assert_eq!(kernel_overlap(4, 3, 2), (0, 3));
    assert_eq!(kernel_overlap(4, 3, 3), (0, 3));
    assert_eq!(kernel_overlap(4, 3, 4), (0, 2));
    assert_eq!(kernel_overlap(4, 3, 5), (0, 1));
    // kernel longer than the signal
    assert_eq!(kernel_overlap(2, 5, 3), (1, 3));
}

#[test]
fn direct_convolution_from_overlap_matches_known_sums() {
    // integer stand-ins for signal [3, 5, -10, 7] and kernel [10, -20, 5]
    let signal = [3i64, 5, -10, 7];
    let kernel = [10i64, -20, 5];
    let (n, m) = (signal.len(), kernel.len());
    let mut full = Vec::new();
    for i in 0..n + m - 1 {
        let (lo, hi) = kernel_overlap(n, m, i);
        let mut acc = 0;
        for j in lo..hi {
            acc += signal[i + j + 1 - m] * kernel[m - 1 - j];
        }
        full.push(acc);
    }
    assert_eq!(full, vec![30, -10, -185, 295, -190, 35]);
    assert_eq!(valid_slice(&full, n, m), vec![-185, 295, -190, 35]);
}

#[test]
fn valid_slice_keeps_the_middle() {
    let full: Vec<u32> = (0..10).collect();
    assert_eq!(valid_slice(&full, 4, 3), vec![2, 3, 4, 5]);
    assert_eq!(valid_slice(&full, 5, 1), vec![0, 1, 2, 3, 4]);
    assert_eq!(valid_slice(&full, 0, 4), Vec::<u32>::new());
    // kernel longer than the signal
    assert_eq!(valid_slice(&full, 2, 7), vec![6, 7]);
}

#[test]
fn cost_model_picks_cheaper_method() {
    assert_eq!(convolution_length(4, 3), 8);
    assert_eq!(convolution_length(1000, 1000), 2048);
    assert_eq!(convolution_method(4, 3), ConvolutionMethod::Direct);
    assert_eq!(convolution_method(10, 1), ConvolutionMethod::Direct);
    assert_eq!(convolution_method(1000, 1000), ConvolutionMethod::Spectral);
    // 64 + 64 - 1 rounds to 128; 128 * 7 = 896 <= 64 * 64
    assert_eq!(convolution_method(64, 64), ConvolutionMethod::Spectral);
    // 8 + 8 - 1 rounds to 16; 16 * 4 = 64 <= 64
    assert_eq!(convolution_method(8, 8), ConvolutionMethod::Spectral);
    // 8 + 7 - 1 rounds to 16; 16 * 4 = 64 > 56
    assert_eq!(convolution_method(8, 7), ConvolutionMethod::Direct);
    assert_eq!(convolution_method(0, 5), ConvolutionMethod::Direct);
    assert_eq!(convolution_method(5, 0), ConvolutionMethod::Direct);
}

#[test]
fn chunks_cover_rows_from_highest() {
    assert_eq!(work_chunks(5, 2), vec![vec![4, 3, 2], vec![1, 0]]);
    assert_eq!(work_chunks(4, 4), vec![vec![3], vec![2], vec![1], vec![0]]);
    assert_eq!(work_chunks(3, 1), vec![vec![2, 1, 0]]);
    assert_eq!(work_chunks(2, 16), vec![vec![1], vec![0]]);
    assert_eq!(work_chunks(0, 3), Vec::<Vec<usize>>::new());
}

#[test]
fn schedule_does_not_depend_on_thread_count() {
    let rows = 37;
    let single: Vec<usize> = work_chunks(rows, 1).concat();
    for threads in 2..50 {
        assert_eq!(work_chunks(rows, threads).concat(), single);
    }
    assert_eq!(single, (0..rows).rev().collect::<Vec<usize>>());
}

#[test]
fn gathered_rows_land_at_their_index() {
    let results = vec![(2usize, vec!['c']), (0, vec!['a', 'a']), (1, vec![])];
    assert_eq!(gather_rows(results, 4), vec![vec!['a', 'a'], vec![], vec!['c'], vec![]]);
}

#[test]
fn resample_averages_runs_of_pixels() {
    // one row of four pixels; 64 samples per second give runs of two pixels
    let image = vec![10u8, 20, 30, 20, 40, 50, 0, 0, 1, 255, 255, 255];
    let (width, data) = resample(1, 64, 4, &image);
    assert_eq!(width, 2);
    assert_eq!(data, vec![15, 30, 40, 127, 127, 128]);
}

#[test]
fn resample_drops_incomplete_run() {
    // two rows of three pixels, runs of two: one column per row
    let image = vec![0u8, 2, 4, 2, 4, 6, 9, 9, 9, 100, 100, 100, 50, 60, 70, 1, 1, 1];
    let (width, data) = resample(2, 95, 3, &image);
    assert_eq!(width, 1);
    assert_eq!(data, vec![1, 3, 5, 75, 80, 85]);
}

#[test]
fn signal_keeps_rate_and_samples() {
    let signal = SignalSample::new(3, vec![1, 2, 3, 4]);
    assert_eq!(signal.sample_rate, 3);
    assert_eq!(signal.len(), 4);
    assert_eq!(signal.samples, vec![1, 2, 3, 4]);
}
