use metrology_insight::integration::signal_integrate;
use metrology_insight::power::calculate_rms;

#[test]
fn integral_is_scaled_to_the_rms_of_the_wave() {
    // Twice the integral: 100, 200, 100, 0, 100, 200, 100, -100; divided by
    // 16: 6, 12, 6, 0, 6, 12, 6, -6. Root mean squares: 70 and 7.
    let wave = [0, 100, 0, -100, 0, 100, 0, -100];
    assert_eq!(signal_integrate(&wave, 0, 0), vec![60, 120, 60, 0, 60, 120, 60, -60]);
}

#[test]
fn integral_of_a_constant_is_a_ramp() {
    // Integral 2, 5, 7, 10 with root mean square 6; the wave has 10.
    assert_eq!(signal_integrate(&[10, 10, 10, 10], 0, 0), vec![3, 8, 11, 16]);
}

#[test]
fn integral_of_silence_is_silence() {
    assert_eq!(signal_integrate(&[0, 0, 0], 0, 0), vec![0, 0, 0]);
    assert!(signal_integrate(&[], 50_000, 7_812_500).is_empty());
}

#[test]
fn integral_of_a_cosine_is_a_sine_of_the_same_rms() {
    let wave: Vec<i32> = (0..313)
        .map(|i| (1_000_000.0 * (2.0 * std::f64::consts::PI * 50.0 * (i as f64) / 7812.5).cos()) as i32)
        .collect();
    let integral = signal_integrate(&wave, 50_000, 7_812_500);
    assert_eq!(integral.len(), wave.len());
    let before = calculate_rms(&wave, wave.len(), 50_000, 7_812_500) as f64;
    let after = calculate_rms(&integral, wave.len(), 50_000, 7_812_500) as f64;
    assert!(((after - before) / before).abs() < 0.001, "{} {}", before, after);
    // A quarter of a cycle in, the integral of the cosine is at its peak.
    let peak = *integral.iter().max().unwrap() as f64;
    assert!((integral[39] as f64 - peak).abs() < 0.01 * peak);
}

#[test]
fn integral_of_extreme_samples_fits() {
    let wave = vec![i32::MIN; 16];
    let integral = signal_integrate(&wave, 0, 0);
    assert_eq!(integral.len(), 16);
    assert!(integral.iter().all(|&s| s < 0));
    let wave = vec![i32::MAX; 16];
    let integral = signal_integrate(&wave, 0, 0);
    assert!(integral.iter().all(|&s| s > 0));
}
