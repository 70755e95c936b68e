use metrology_insight::harmonics::{
    calculate_harmonics_and_thd, compute_harmonics_and_thd, harmonics_input, resample_signal,
    store_harmonics, update_harmonics, FFT_RESOLUTION,
};
use metrology_insight::types::{
    MetrologyInsightSignal, MetrologyInsightSignalType, MetrologyInsightSocket,
};
use realfft::RealFftPlanner;

#[test]
fn resampling_interpolates_and_wraps_around() {
    assert_eq!(resample_signal(&[0, 10, 20, 30], 8), vec![0, 5, 10, 15, 20, 25, 30, 15]);
    assert_eq!(resample_signal(&[0, 10, 20, 30], 2), vec![0, 20]);
    assert_eq!(resample_signal(&[0, 10, 20, 30], 4), vec![0, 10, 20, 30]);
}

#[test]
fn resampling_rounds_toward_zero() {
    assert_eq!(resample_signal(&[0, 100], 3), vec![0, 66, 67]);
    assert_eq!(resample_signal(&[0, -100, 50], 5), vec![0, -60, -70, 20, 30]);
}

#[test]
fn resampling_edge_cases() {
    assert_eq!(resample_signal(&[5], 3), vec![5, 5, 5]);
    assert!(resample_signal(&[1, 2, 3], 0).is_empty());
    assert!(resample_signal(&[], 0).is_empty());
    assert_eq!(resample_signal(&[i32::MIN, i32::MAX], 4), vec![i32::MIN, -1, i32::MAX, 0]);
}

fn spectrum(entries: &[(usize, u32)]) -> Vec<u32> {
    let mut magnitudes = vec![0u32; 65];
    for &(bin, magnitude) in entries {
        magnitudes[bin] = magnitude;
    }
    magnitudes
}

#[test]
fn harmonics_are_relative_to_the_fundamental() {
    let magnitudes = spectrum(&[(1, 1000), (3, 50), (5, 20)]);
    let (harmonics, thd) = calculate_harmonics_and_thd(&magnitudes, 1000, 1);
    assert_eq!(harmonics[0], 1_000_000);
    assert_eq!(harmonics[1], 50_000);
    assert_eq!(harmonics[2], 20_000);
    assert!(harmonics[3..].iter().all(|&h| h == 0));
    // sqrt(50^2 + 20^2) / 1000 = 0.053851...
    assert_eq!(thd, 53_851);
}

#[test]
fn fundamental_alone_has_no_distortion() {
    let magnitudes = spectrum(&[(1, 1000)]);
    let (harmonics, thd) = calculate_harmonics_and_thd(&magnitudes, 1000, 1);
    assert_eq!(harmonics[0], 1_000_000);
    assert!(harmonics[1..].iter().all(|&h| h == 0));
    assert_eq!(thd, 0);
}

#[test]
fn harmonics_beyond_the_spectrum_count_as_zero() {
    // Fundamental in bin 2: orders 3 and 5 lie in the bins 6 and 10, order 33
    // in bin 66, beyond the 65 bins.
    let mut magnitudes = spectrum(&[(2, 400), (6, 300), (10, 400)]);
    magnitudes[64] = 999;
    let (harmonics, thd) = calculate_harmonics_and_thd(&magnitudes, 400, 2);
    assert_eq!(harmonics[0], 1_000_000);
    assert_eq!(harmonics[1], 750_000);
    assert_eq!(harmonics[2], 1_000_000);
    assert!(harmonics[3..].iter().all(|&h| h == 0));
    // sqrt(300^2 + 400^2) / 400 = 1.25
    assert_eq!(thd, 1_250_000);
}

#[test]
fn harmonics_of_extreme_magnitudes_do_not_overflow() {
    let magnitudes = vec![u32::MAX; 65];
    let (harmonics, thd) = calculate_harmonics_and_thd(&magnitudes, 1, 1);
    assert_eq!(harmonics[0], u32::MAX as i64 * 1_000_000);
    assert!(thd > 0);
    let (_, thd) = calculate_harmonics_and_thd(&magnitudes, u32::MAX, usize::MAX);
    assert_eq!(thd, 0);
}

#[test]
fn fundamental_bin_is_the_rounded_frequency_by_bin_width() {
    // Bin width 7812.5 / 128 = 61.04 Hz: 50 Hz and 60 Hz lie in bin 1.
    let magnitudes = spectrum(&[(1, 1000), (3, 100)]);
    let (harmonics, _) = compute_harmonics_and_thd(&magnitudes, 128, 50_000, 7_812_500).unwrap();
    assert_eq!(harmonics[1], 100_000);
    assert!(compute_harmonics_and_thd(&magnitudes, 128, 60_000, 7_812_500).is_some());
    // 30.518 Hz is the first frequency that rounds to bin 1.
    assert!(compute_harmonics_and_thd(&magnitudes, 128, 30_518, 7_812_500).is_some());
    assert!(compute_harmonics_and_thd(&magnitudes, 128, 30_517, 7_812_500).is_none());
}

#[test]
fn no_harmonics_without_a_fundamental() {
    let magnitudes = spectrum(&[(1, 1000), (3, 100)]);
    // Bin 6 is empty.
    assert!(compute_harmonics_and_thd(&magnitudes, 128, 50_000, 1_000_000).is_none());
    // Bin 0 is empty.
    assert!(compute_harmonics_and_thd(&magnitudes, 128, 0, 7_812_500).is_none());
    // The bin lies beyond the spectrum.
    assert!(compute_harmonics_and_thd(&magnitudes, 128, 50_000, 50_000).is_none());
    assert!(compute_harmonics_and_thd(&magnitudes, usize::MAX, u32::MAX, 1).is_none());
    // No sampling rate.
    assert!(compute_harmonics_and_thd(&magnitudes, 128, 50_000, 0).is_none());
    assert!(compute_harmonics_and_thd(&[], 128, 50_000, 7_812_500).is_none());
}

fn channel(length_cycle: usize, wave: Vec<i32>) -> MetrologyInsightSignal {
    let mut signal = MetrologyInsightSignal::default();
    signal.length_cycle = length_cycle;
    signal.length = length_cycle;
    signal.real_wave = wave;
    signal.freq_zc = 50_000;
    signal
}

#[test]
fn short_cycles_give_no_wave_to_transform() {
    assert!(harmonics_input(&channel(127, vec![1; 156])).is_none());
    assert!(harmonics_input(&channel(156, vec![])).is_none());
    let wave = harmonics_input(&channel(128, vec![7; 156])).unwrap();
    assert_eq!(wave, vec![7; FFT_RESOLUTION]);
}

#[test]
fn harmonics_are_smoothed_into_the_signal() {
    let magnitudes = spectrum(&[(1, 1000), (3, 50), (5, 20)]);
    let mut signal = channel(156, vec![1; 156]);
    store_harmonics(&mut signal, &magnitudes, 7_812_500, 500_000);
    // A state of zero takes the value as it is.
    assert_eq!(signal.harmonics[0], 1_000_000);
    assert_eq!(signal.harmonics[1], 50_000);
    assert_eq!(signal.harmonics[2], 20_000);
    assert_eq!(signal.thd, 53_851);
    let magnitudes = spectrum(&[(1, 1000), (3, 150), (5, 20)]);
    store_harmonics(&mut signal, &magnitudes, 7_812_500, 500_000);
    assert_eq!(signal.harmonics[0], 1_000_000);
    assert_eq!(signal.harmonics[1], 100_000);
    assert_eq!(signal.harmonics[2], 20_000);
    // sqrt(150^2 + 20^2) / 1000 = 0.151327; halfway from 0.053851.
    assert_eq!(signal.thd, 53_851 + (151_327 - 53_851) / 2);
    assert_eq!(signal.freq_zc, 50_000);
    assert_eq!(signal.length_cycle, 156);
}

#[test]
fn unavailable_harmonics_leave_the_signal_as_it_is() {
    let magnitudes = spectrum(&[(1, 1000), (3, 50)]);
    let mut signal = channel(156, vec![1; 156]);
    store_harmonics(&mut signal, &magnitudes, 7_812_500, 500_000);
    // Shorter than the resampled wave.
    signal.length_cycle = 127;
    store_harmonics(&mut signal, &spectrum(&[(1, 1000), (3, 500)]), 7_812_500, 500_000);
    assert_eq!(signal.harmonics[1], 50_000);
    // Empty fundamental.
    signal.length_cycle = 156;
    store_harmonics(&mut signal, &spectrum(&[(3, 500)]), 7_812_500, 500_000);
    assert_eq!(signal.harmonics[1], 50_000);
    assert_eq!(signal.thd, 50_000);
}

#[test]
fn harmonics_go_to_the_channel_of_their_kind() {
    let magnitudes = spectrum(&[(1, 1000), (3, 50)]);
    let mut socket = MetrologyInsightSocket::default();
    socket.voltage_signal = channel(156, vec![1; 156]);
    socket.current_signal = channel(156, vec![1; 156]);
    update_harmonics(&mut socket, MetrologyInsightSignalType::Current, &magnitudes, 7_812_500, 20_000);
    assert_eq!(socket.current_signal.harmonics[1], 50_000);
    assert_eq!(socket.voltage_signal.harmonics[1], 0);
    assert_eq!(socket.voltage_signal.harmonics[0], 0);
    update_harmonics(&mut socket, MetrologyInsightSignalType::Voltage, &magnitudes, 7_812_500, 20_000);
    assert_eq!(socket.voltage_signal.harmonics[1], 50_000);
    assert_eq!(socket.voltage_signal.thd, 50_000);
}

fn magnitudes_of(wave: &[i32]) -> Vec<u32> {
    let n = wave.len();
    let mut windowed: Vec<f64> = wave
        .iter()
        .enumerate()
        .map(|(i, &s)| {
            let window =
                0.5 * (1.0 - (2.0 * std::f64::consts::PI * i as f64 / (n as f64 - 1.0)).cos());
            s as f64 * window
        })
        .collect();
    let mean = windowed.iter().sum::<f64>() / n as f64;
    for sample in windowed.iter_mut() {
        *sample -= mean;
    }
    let mut planner = RealFftPlanner::<f64>::new();
    let transform = planner.plan_fft_forward(n);
    let mut spectrum = transform.make_output_vec();
    transform.process(&mut windowed, &mut spectrum).unwrap();
    // In units of 64 sample units, so that every magnitude fits 32 bits.
    spectrum
        .iter()
        .map(|bin| ((bin.re * bin.re + bin.im * bin.im).sqrt() / 64.0) as u32)
        .collect()
}

fn sampled(harmonics: &[(f64, f64)]) -> Vec<i32> {
    (0..156)
        .map(|i| {
            let t = i as f64 / 7812.5;
            let mut value = 0.0;
            for &(order, share) in harmonics {
                value += share * (2.0 * std::f64::consts::PI * 50.0 * order * t).sin();
            }
            (325.0e6 * value) as i32
        })
        .collect()
}

#[test]
fn clean_sine_has_no_harmonics() {
    let wave = resample_signal(&sampled(&[(1.0, 1.0)]), FFT_RESOLUTION);
    let magnitudes = magnitudes_of(&wave);
    assert_eq!(magnitudes.len(), 65);
    let (harmonics, thd) = compute_harmonics_and_thd(&magnitudes, FFT_RESOLUTION, 50_000, 7_812_500).unwrap();
    assert_eq!(harmonics[0], 1_000_000);
    for k in 1..21 {
        assert!(harmonics[k] < 5_000, "{} {}", k, harmonics[k]);
    }
    assert!(thd < 5_000, "{}", thd);
}

#[test]
fn distorted_sine_shows_its_harmonics() {
    let wave = resample_signal(&sampled(&[(1.0, 1.0), (3.0, 0.05), (5.0, 0.02)]), FFT_RESOLUTION);
    let magnitudes = magnitudes_of(&wave);
    let (harmonics, thd) = compute_harmonics_and_thd(&magnitudes, FFT_RESOLUTION, 50_000, 7_812_500).unwrap();
    assert!((harmonics[1] - 50_000).abs() < 5_000, "{}", harmonics[1]);
    assert!((harmonics[2] - 20_000).abs() < 5_000, "{}", harmonics[2]);
    for k in 3..21 {
        assert!(harmonics[k] < 5_000, "{} {}", k, harmonics[k]);
    }
    assert!((thd - 53_852).abs() < 5_000, "{}", thd);
}

#[test]
fn silence_has_no_harmonics_to_report() {
    let magnitudes = magnitudes_of(&resample_signal(&[0; 156], FFT_RESOLUTION));
    assert!(magnitudes.iter().all(|&m| m == 0));
    assert!(compute_harmonics_and_thd(&magnitudes, FFT_RESOLUTION, 50_000, 7_812_500).is_none());
    // A wave of a few units leaves the bin of the fundamental empty as well.
    let faint: Vec<i32> = (0..156).map(|i| if i < 78 { 1 } else { -1 }).collect();
    let magnitudes = magnitudes_of(&resample_signal(&faint, FFT_RESOLUTION));
    assert!(compute_harmonics_and_thd(&magnitudes, FFT_RESOLUTION, 50_000, 7_812_500).is_none());
}
