use metrology_insight::short_circuit::{optimal_abs, short_circuit};

#[test]
fn magnitude_of_samples() {
    assert_eq!(optimal_abs(0), 0);
    assert_eq!(optimal_abs(5), 5);
    assert_eq!(optimal_abs(-5), 5);
    assert_eq!(optimal_abs(-1), 1);
    assert_eq!(optimal_abs(i32::MAX), 2_147_483_647);
    assert_eq!(optimal_abs(i32::MIN), 2_147_483_648);
    assert_eq!(optimal_abs(i32::MIN + 1), 2_147_483_647);
}

#[test]
fn threshold_is_the_eleventh_smallest_magnitude() {
    let wave = [5, -3, 8, -1, 0, 7, -9, 2, 4, -6, 10, -11, 12];
    assert_eq!(short_circuit(&wave, 13), 10);
    // Of the first eleven samples the largest magnitude has rank ten.
    assert_eq!(short_circuit(&wave, 11), 10);
    assert_eq!(short_circuit(&wave, 12), 10);
}

#[test]
fn threshold_with_equal_magnitudes() {
    let wave = [4, -4, 4, -4, 4, -4, 4, -4, 4, -4, 9, -9, 1];
    // Sorted: 1, 4 x 10, 9, 9.
    assert_eq!(short_circuit(&wave, 13), 4);
    assert_eq!(short_circuit(&wave, 11), 9);
}

#[test]
fn threshold_of_more_than_one_cycle_is_zero() {
    let wave = vec![1000; 400];
    assert_eq!(short_circuit(&wave, 157), 0);
    assert_eq!(short_circuit(&wave, 400), 0);
    assert_eq!(short_circuit(&wave, 156), 1000);
    assert_eq!(short_circuit(&[], 157), 0);
}

#[test]
fn threshold_uses_the_samples_that_exist() {
    let wave = [5, -3, 8, -1, 0, 7, -9, 2, 4, -6, 10, -11, 12];
    assert_eq!(short_circuit(&wave, 100), 10);
}

#[test]
fn threshold_of_a_sine_cycle() {
    let wave: Vec<i32> = (0..156)
        .map(|i| (1000.0 * (2.0 * std::f64::consts::PI * (i as f64) / 156.0).sin()) as i32)
        .collect();
    let threshold = short_circuit(&wave, 156);
    let mut sorted: Vec<u32> = wave.iter().map(|s| s.unsigned_abs()).collect();
    sorted.sort();
    assert_eq!(threshold, sorted[10]);
}
