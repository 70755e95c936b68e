use metrology_insight::conditioning::{
    convert_raw_to_physical, is_signal_valid, moving_average, remove_signal_offset,
};
use metrology_insight::types::{MetrologyInsightSignal, MetrologyInsightSignalType};

#[test]
fn moving_average_uses_a_trailing_window_that_shrinks_at_the_start() {
    let mut wave = vec![4, 8, 12, 16, 20, 24];
    moving_average(&mut wave, 3);
    // Windows: [4], [4,8], [4,8,12], [4,8,12,16], [8,12,16,20], [12,16,20,24].
    assert_eq!(wave, vec![4, 6, 8, 10, 14, 18]);
}

#[test]
fn moving_average_rounds_toward_zero() {
    let mut wave = vec![-1, -2, 0, 2];
    moving_average(&mut wave, 1);
    // Windows: [-1], [-1,-2], [-2,0], [0,2].
    assert_eq!(wave, vec![-1, -1, -1, 1]);
}

#[test]
fn moving_average_with_no_reach_changes_nothing() {
    let mut wave = vec![7, -3, 11];
    moving_average(&mut wave, 0);
    assert_eq!(wave, vec![7, -3, 11]);
}

#[test]
fn moving_average_of_extreme_samples_does_not_overflow() {
    let mut wave = vec![i32::MAX, i32::MAX, i32::MAX, i32::MIN];
    moving_average(&mut wave, 2);
    assert_eq!(wave[0], i32::MAX);
    assert_eq!(wave[1], i32::MAX);
    assert_eq!(wave[2], i32::MAX);
    // (2 * MAX + MIN) / 3 = (MAX - 1) / 3
    assert_eq!(wave[3], (i32::MAX - 1) / 3);
}

#[test]
fn offset_is_the_midpoint_not_the_mean() {
    let mut wave = vec![0, 0, 0, 0, 100];
    remove_signal_offset(&mut wave);
    // Midpoint (100 + 0) / 2 = 50; the mean would be 20.
    assert_eq!(wave, vec![-50, -50, -50, -50, 50]);
}

#[test]
fn offset_midpoint_rounds_toward_zero() {
    let mut wave = vec![-4, 1];
    remove_signal_offset(&mut wave);
    // (-4 + 1) / 2 = -1 when rounded toward zero.
    assert_eq!(wave, vec![-3, 2]);
}

#[test]
fn offset_of_full_range_wave_fits() {
    let mut wave = vec![i32::MIN, i32::MAX];
    remove_signal_offset(&mut wave);
    assert_eq!(wave, vec![i32::MIN, i32::MAX]);
    let mut high = vec![i32::MAX, i32::MAX - 10];
    remove_signal_offset(&mut high);
    assert_eq!(high, vec![5, -5]);
}

#[test]
fn offset_of_empty_wave_is_a_no_op() {
    let mut wave: Vec<i32> = vec![];
    remove_signal_offset(&mut wave);
    assert!(wave.is_empty());
}

#[test]
fn voltage_needs_eighty_counts_peak_to_peak() {
    assert!(is_signal_valid(&[-40, 40], MetrologyInsightSignalType::Voltage));
    assert!(!is_signal_valid(&[-40, 39], MetrologyInsightSignalType::Voltage));
    assert!(is_signal_valid(&[0, 10, 80], MetrologyInsightSignalType::Voltage));
}

#[test]
fn current_needs_only_two_samples() {
    assert!(is_signal_valid(&[0, 0], MetrologyInsightSignalType::Current));
    assert!(!is_signal_valid(&[5], MetrologyInsightSignalType::Current));
    assert!(!is_signal_valid(&[], MetrologyInsightSignalType::Current));
}

#[test]
fn short_waves_are_invalid_whatever_their_kind() {
    assert!(!is_signal_valid(&[1000], MetrologyInsightSignalType::Voltage));
    assert!(!is_signal_valid(&[], MetrologyInsightSignalType::Voltage));
}

#[test]
fn validity_of_full_range_wave() {
    assert!(is_signal_valid(&[i32::MIN, i32::MAX], MetrologyInsightSignalType::Voltage));
}

#[test]
fn min_amplitude_depends_on_the_kind() {
    assert_eq!(MetrologyInsightSignalType::Voltage.min_amplitude(), 80);
    assert_eq!(MetrologyInsightSignalType::Current.min_amplitude(), 0);
}

fn signal(wave: Vec<i32>, kind: MetrologyInsightSignalType, factor: u32, scale: u32) -> MetrologyInsightSignal {
    let mut s = MetrologyInsightSignal::default();
    s.wave = wave;
    s.signal_type = kind;
    s.adc_factor = factor;
    s.adc_scale = scale;
    s
}

#[test]
fn voltage_is_scaled_by_the_factor_only() {
    let s = signal(vec![1000, -1000, 3], MetrologyInsightSignalType::Voltage, 107_653, 5000);
    // 1000 * 107.653 = 107653; 3 * 107.653 = 322.959 -> 322
    assert_eq!(convert_raw_to_physical(&s), vec![107_653, -107_653, 322]);
}

#[test]
fn current_is_scaled_by_factor_and_ratio() {
    let s = signal(vec![1000, -1000, 3], MetrologyInsightSignalType::Current, 2500, 1500);
    // 1000 * 2.5 = 2500, * 1.5 = 3750; 3 * 2.5 = 7.5 -> 7, 7 * 1.5 = 10.5 -> 10
    assert_eq!(convert_raw_to_physical(&s), vec![3750, -3750, 10]);
}

#[test]
fn conversion_is_limited_to_the_range_of_a_sample() {
    let s = signal(vec![i32::MAX, i32::MIN, 1], MetrologyInsightSignalType::Voltage, 2000, 1000);
    assert_eq!(convert_raw_to_physical(&s), vec![i32::MAX, i32::MIN, 2]);
}

#[test]
fn default_signal_has_unit_calibration() {
    let s = MetrologyInsightSignal::default();
    assert_eq!(s.adc_factor, 1000);
    assert_eq!(s.adc_scale, 1000);
    assert_eq!(s.freq_nominal, 50_000);
    assert!(!s.is_current());
    let c = signal(vec![5, -5], MetrologyInsightSignalType::Current, 1000, 1000);
    assert!(c.is_current());
    assert_eq!(convert_raw_to_physical(&c), vec![5, -5]);
}
