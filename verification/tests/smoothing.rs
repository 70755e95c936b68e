use metrology_insight::smoothing::update_average;

fn fed(input: i64, state: i64, avg: u32) -> i64 {
    let mut out = state;
    update_average(input, &mut out, avg);
    out
}

#[test]
fn a_state_of_zero_takes_the_value_as_it_is() {
    assert_eq!(fed(100, 0, 20_000), 100);
    assert_eq!(fed(-7, 0, 0), -7);
    assert_eq!(fed(i64::MIN, 0, 1_000_000), i64::MIN);
}

#[test]
fn a_state_moves_by_the_fraction_of_the_distance() {
    assert_eq!(fed(200, 100, 20_000), 102);
    assert_eq!(fed(0, 100, 20_000), 98);
    assert_eq!(fed(-100, 100, 500_000), 0);
    assert_eq!(fed(150, 100, 1_000_000), 150);
    assert_eq!(fed(50, -50, 0), -50);
}

#[test]
fn steps_are_rounded_toward_zero() {
    assert_eq!(fed(101, 100, 999_999), 100);
    assert_eq!(fed(99, 100, 999_999), 100);
    assert_eq!(fed(100, 150, 1), 150);
}

#[test]
fn extreme_values_do_not_overflow() {
    assert_eq!(fed(i64::MAX, i64::MIN, 1_000_000), i64::MAX);
    assert_eq!(fed(i64::MIN, i64::MAX, 1_000_000), i64::MIN);
    assert_eq!(fed(i64::MAX, i64::MIN, 500_000), -1);
}

#[test]
fn the_average_settles_on_a_constant_input() {
    let mut state = 0;
    update_average(1000, &mut state, 20_000);
    assert_eq!(state, 1000);
    for _ in 0..500 {
        let before = state;
        update_average(2000, &mut state, 20_000);
        assert!(before <= state && state <= 2000);
    }
    assert!(state > 1950);
}
