use metrology_insight::phase::{
    absolute_phase_angles_from_signals, all_phase_angles_from_signals, find_first_zero_crossing,
    phase_angle_from_pf_and_react_power, phase_cosine_from_signals, phase_direction,
    power_factor_cosine,
    sample_index_to_angle, update_phase_angles,
};
use metrology_insight::types::{MetrologyInsightSocket, PhaseAngleMetrics, PhaseDirection};

#[test]
fn first_rising_crossing_is_the_sample_that_ends_it() {
    assert_eq!(find_first_zero_crossing(&[5, -1, -3, 2, 4, -2, 3]), Some(3));
    assert_eq!(find_first_zero_crossing(&[-1, 0, 5]), Some(1));
    assert_eq!(find_first_zero_crossing(&[-1, -1, -1, 0]), Some(3));
}

#[test]
fn falling_crossings_are_not_found() {
    assert_eq!(find_first_zero_crossing(&[5, 2, -1, -4]), None);
    assert_eq!(find_first_zero_crossing(&[0, 0, 0]), None);
    assert_eq!(find_first_zero_crossing(&[0, 5, 9]), None);
    assert_eq!(find_first_zero_crossing(&[]), None);
    assert_eq!(find_first_zero_crossing(&[-5]), None);
}

#[test]
fn angle_of_a_sample_index() {
    // A quarter of 40 samples is 90 degrees.
    assert_eq!(sample_index_to_angle(10, 40_000), 90_000_000);
    assert_eq!(sample_index_to_angle(78, 156_000), 180_000_000);
    assert_eq!(sample_index_to_angle(39, 156_250), 89_856_000);
    assert_eq!(sample_index_to_angle(0, 156_250), 0);
}

#[test]
fn angle_wraps_at_a_full_turn() {
    assert_eq!(sample_index_to_angle(156, 156_250), 359_424_000);
    assert_eq!(sample_index_to_angle(157, 156_250), 1_728_000);
    assert_eq!(sample_index_to_angle(1, 1), 0);
    assert_eq!(sample_index_to_angle(usize::MAX, 1), 0);
    assert_eq!(sample_index_to_angle(40, 40_000), 0);
}

#[test]
fn absolute_angles_of_two_waves() {
    let voltage = [-5, -1, 3, 5, 3, -1, -5, -1];
    let current = [3, -1, -5, -1, 3, 5, 3, -1];
    // Crossings end at the samples 2 and 4 of cycles of 8 samples.
    assert_eq!(
        absolute_phase_angles_from_signals(&voltage, &current, 8000),
        (90_000_000, 180_000_000)
    );
    // Without a crossing the angle is zero.
    assert_eq!(absolute_phase_angles_from_signals(&[1, 2], &[], 8000), (0, 0));
}

#[test]
fn cosine_of_the_angle_between_two_waves() {
    assert_eq!(phase_cosine_from_signals(&[3, 4], &[3, 4]), 1_000_000);
    assert_eq!(phase_cosine_from_signals(&[3, 4], &[-3, -4]), -1_000_000);
    assert_eq!(phase_cosine_from_signals(&[1, 0], &[0, 1]), 0);
    // 24 / (5 * 5)
    assert_eq!(phase_cosine_from_signals(&[3, 4], &[4, 3]), 960_000);
    // 1e6 / (1000 * 1414)
    assert_eq!(phase_cosine_from_signals(&[1000, 0], &[1000, 1000]), 707_213);
}

#[test]
fn cosine_without_magnitude_is_one() {
    assert_eq!(phase_cosine_from_signals(&[0, 0], &[1, 2]), 1_000_000);
    assert_eq!(phase_cosine_from_signals(&[1, 2], &[0, 0]), 1_000_000);
    assert_eq!(phase_cosine_from_signals(&[], &[]), 1_000_000);
}

#[test]
fn cosine_of_extreme_waves_does_not_overflow() {
    let wave = vec![i32::MIN; 1000];
    assert!(phase_cosine_from_signals(&wave, &wave) >= 999_999);
    let other = vec![i32::MAX; 1000];
    assert!(phase_cosine_from_signals(&wave, &other) <= -999_999);
}

#[test]
fn signed_angle_follows_the_reactive_power() {
    assert_eq!(phase_angle_from_pf_and_react_power(500_000, 10, 60_000_000), 60_000_000);
    assert_eq!(phase_angle_from_pf_and_react_power(500_000, -10, 60_000_000), -60_000_000);
    assert_eq!(phase_angle_from_pf_and_react_power(500_000, 0, 60_000_000), 60_000_000);
    assert_eq!(phase_angle_from_pf_and_react_power(0, -5, 90_000_000), -90_000_000);
    assert_eq!(phase_angle_from_pf_and_react_power(-1_000_000, -1, 180_000_000), -180_000_000);
    assert_eq!(phase_angle_from_pf_and_react_power(1_000_000, 3, 0), 0);
    assert_eq!(phase_angle_from_pf_and_react_power(1_000_000, -1, 0), 0);
    assert_eq!(phase_angle_from_pf_and_react_power(0, i64::MIN, u32::MAX), -(u32::MAX as i64));
}

#[test]
fn power_factor_outside_the_unit_interval_is_limited() {
    assert_eq!(power_factor_cosine(1_000_001), 1_000_000);
    assert_eq!(power_factor_cosine(-1_000_001), -1_000_000);
    assert_eq!(power_factor_cosine(i64::MAX), 1_000_000);
    assert_eq!(power_factor_cosine(i64::MIN), -1_000_000);
    assert_eq!(power_factor_cosine(-250_000), -250_000);
    assert_eq!(power_factor_cosine(0), 0);
    // The arc cosine of -1 is 180 degrees, of 1 it is 0.
    assert_eq!(phase_angle_from_pf_and_react_power(-1_500_000, 10, 180_000_000), 180_000_000);
    assert_eq!(phase_angle_from_pf_and_react_power(-1_500_000, -10, 180_000_000), -180_000_000);
    assert_eq!(phase_angle_from_pf_and_react_power(1_500_000, -10, 0), 0);
}

#[test]
fn direction_of_an_angle() {
    assert_eq!(phase_direction(30_000_000), PhaseDirection::Inductive);
    assert_eq!(phase_direction(-30_000_000), PhaseDirection::Capacitive);
    assert_eq!(phase_direction(0), PhaseDirection::InPhase);
    assert_eq!(phase_direction(2), PhaseDirection::Inductive);
    assert_eq!(phase_direction(1), PhaseDirection::InPhase);
    assert_eq!(phase_direction(-1), PhaseDirection::InPhase);
    assert_eq!(phase_direction(-2), PhaseDirection::Capacitive);
    assert_eq!(phase_direction(i64::MAX), PhaseDirection::Inductive);
    assert_eq!(phase_direction(i64::MIN), PhaseDirection::Capacitive);
}

#[test]
fn descriptions_of_the_directions() {
    assert_eq!(PhaseDirection::Inductive.as_str(), "Inductive (current lags voltage)");
    assert_eq!(PhaseDirection::Capacitive.as_str(), "Capacitive (current leads voltage)");
    assert_eq!(PhaseDirection::InPhase.as_str(), "In phase (no phase difference)");
    assert_eq!(PhaseDirection::default(), PhaseDirection::InPhase);
    let mut metrics = PhaseAngleMetrics::default();
    assert_eq!(metrics.direction_description(), "In phase (no phase difference)");
    metrics.direction = PhaseDirection::Capacitive;
    assert_eq!(metrics.direction_description(), "Capacitive (current leads voltage)");
}

#[test]
fn all_angles_of_an_acquisition() {
    let voltage = [-5, -1, 3, 5, 3, -1, -5, -1];
    let current = [3, -1, -5, -1, 3, 5, 3, -1];
    let angles = all_phase_angles_from_signals(&voltage, &current, 8000, -90_000_000);
    assert_eq!(angles.c2v_angle, -90_000_000);
    assert_eq!(angles.v_angle, 90_000_000);
    assert_eq!(angles.c_angle, 180_000_000);
    assert_eq!(angles.direction, PhaseDirection::Capacitive);
}

#[test]
fn angles_are_stored_in_the_socket() {
    let mut socket = MetrologyInsightSocket::default();
    socket.voltage_signal.real_wave = vec![-5, -1, 3, 5, 3, -1, -5, -1];
    socket.current_signal.real_wave = vec![3, -1, -5, -1, 3, 5, 3, -1];
    socket.power_metrics.real_power = 77;
    update_phase_angles(&mut socket, 8000, 45_000_000);
    assert_eq!(socket.phase_angles.c2v_angle, 45_000_000);
    assert_eq!(socket.phase_angles.v_angle, 90_000_000);
    assert_eq!(socket.phase_angles.c_angle, 180_000_000);
    assert_eq!(socket.phase_angles.direction, PhaseDirection::Inductive);
    assert_eq!(socket.power_metrics.real_power, 77);
    assert_eq!(socket.voltage_signal.real_wave.len(), 8);
}
