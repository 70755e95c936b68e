use metrology_insight::energy::{
    calculate_energy, calculate_energy_by_cuadrant, energy_of, energy_quadrant,
    update_total_energy, ActiveEnergyMetrics, EnergyMetrics, Quadrant, ReactiveEnergyMetrics,
};
use metrology_insight::types::MetrologyInsightSocket;

fn registers(m: &EnergyMetrics) -> [u64; 8] {
    [
        m.active.q1,
        m.active.q2,
        m.active.q3,
        m.active.q4,
        m.reactive.q1,
        m.reactive.q2,
        m.reactive.q3,
        m.reactive.q4,
    ]
}

fn sums_agree(m: &EnergyMetrics) -> bool {
    m.active.imported == m.active.q1 as u128 + m.active.q4 as u128
        && m.active.exported == m.active.q2 as u128 + m.active.q3 as u128
        && m.active.balance == m.active.imported as i128 - m.active.exported as i128
        && m.reactive.inductive == m.reactive.q1 as u128 + m.reactive.q3 as u128
        && m.reactive.capacitive == m.reactive.q2 as u128 + m.reactive.q4 as u128
        && m.reactive.balance
            == (m.reactive.q1 as i128 + m.reactive.q2 as i128)
                - (m.reactive.q3 as i128 + m.reactive.q4 as i128)
}

#[test]
fn quadrants_follow_the_signs() {
    assert_eq!(energy_quadrant(5, 7), Some(Quadrant::Q1));
    assert_eq!(energy_quadrant(-5, 7), Some(Quadrant::Q2));
    assert_eq!(energy_quadrant(-5, -7), Some(Quadrant::Q3));
    assert_eq!(energy_quadrant(5, -7), Some(Quadrant::Q4));
}

#[test]
fn zero_power_has_no_quadrant() {
    assert_eq!(energy_quadrant(0, 7), None);
    assert_eq!(energy_quadrant(5, 0), None);
    assert_eq!(energy_quadrant(0, 0), None);
    assert_eq!(energy_quadrant(0, -7), None);
    assert_eq!(energy_quadrant(-5, 0), None);
}

#[test]
fn energy_is_power_times_elapsed_time() {
    // 2300 W over 156 samples at 7812.5 Hz: 45.93 J = 12 757 333 nWh.
    assert_eq!(energy_of(2_300_000_000_000_000, 156, 7_812_500), 12_757_333);
    assert_eq!(energy_of(-2_300_000_000_000_000, 156, 7_812_500), 12_757_333);
    assert_eq!(energy_of(1, 1, 1), 0);
    assert_eq!(energy_of(18_000, 2, 1), 10);
    assert_eq!(energy_of(0, 156, 7_812_500), 0);
    assert_eq!(energy_of(2_300_000_000_000_000, 0, 7_812_500), 0);
}

#[test]
fn energy_of_extreme_arguments_does_not_overflow() {
    if usize::BITS == 64 {
        assert_eq!(
            energy_of(i64::MIN, usize::MAX, 1),
            47_261_439_850_130_342_145_128_869_910_841_480
        );
    }
}

#[test]
fn each_quadrant_takes_the_magnitudes_of_both_energies() {
    let cases: [(i64, i64, usize); 4] = [(18_000, 36_000, 0), (-18_000, 36_000, 1), (-18_000, -36_000, 2), (18_000, -36_000, 3)];
    for &(real, reactive, quadrant) in &cases {
        let mut m = EnergyMetrics::default();
        m.accumulate(real, reactive, 2, 1);
        let mut expected = [0u64; 8];
        expected[quadrant] = 10;
        expected[4 + quadrant] = 20;
        assert_eq!(registers(&m), expected);
        assert!(sums_agree(&m));
    }
}

#[test]
fn zero_power_changes_no_register() {
    for &(real, reactive) in &[(0i64, 36_000i64), (18_000, 0), (0, 0), (0, -36_000), (-18_000, 0)] {
        let mut m = EnergyMetrics::default();
        m.accumulate(18_000, 36_000, 2, 1);
        let before = registers(&m);
        m.accumulate(real, reactive, 2, 1);
        assert_eq!(registers(&m), before);
        assert!(sums_agree(&m));
    }
}

#[test]
fn sums_and_balances_follow_the_registers() {
    let mut m = EnergyMetrics::default();
    m.accumulate(18_000, 36_000, 2, 1); // Q1: 10, 20
    m.accumulate(18_000, -36_000, 4, 1); // Q4: 20, 40
    m.accumulate(-18_000, 36_000, 6, 1); // Q2: 30, 60
    m.accumulate(-18_000, -36_000, 8, 1); // Q3: 40, 80
    assert_eq!(registers(&m), [10, 30, 40, 20, 20, 60, 80, 40]);
    assert_eq!(m.active.imported, 30);
    assert_eq!(m.active.exported, 70);
    assert_eq!(m.active.balance, -40);
    assert_eq!(m.reactive.inductive, 100);
    assert_eq!(m.reactive.capacitive, 100);
    assert_eq!(m.reactive.balance, -40);
    assert_eq!(m.active.imported(), 30);
    assert_eq!(m.active.exported(), 70);
    assert_eq!(m.active.balance(), -40);
    assert_eq!(m.reactive.inductive(), 100);
    assert_eq!(m.reactive.capacitive(), 100);
    assert_eq!(m.reactive.balance(), -40);
}

#[test]
fn stale_sums_are_derived_anew() {
    let mut m = EnergyMetrics {
        active: ActiveEnergyMetrics { imported: 99, exported: 98, balance: 97, q1: 1, q2: 2, q3: 3, q4: 4 },
        reactive: ReactiveEnergyMetrics { capacitive: 96, inductive: 95, balance: 94, q1: 5, q2: 6, q3: 7, q4: 8 },
    };
    m.accumulate(0, 0, 1, 1);
    assert_eq!(registers(&m), [1, 2, 3, 4, 5, 6, 7, 8]);
    assert!(sums_agree(&m));
    assert_eq!(m.active.balance, 5 - 5);
    assert_eq!(m.reactive.balance, 11 - 15);
}

#[test]
fn a_full_register_stays_full() {
    let mut m = EnergyMetrics::default();
    m.active.q1 = u64::MAX - 5;
    m.reactive.q1 = u64::MAX;
    m.accumulate(18_000, 36_000, 2, 1);
    assert_eq!(m.active.q1, u64::MAX);
    assert_eq!(m.reactive.q1, u64::MAX);
    assert!(sums_agree(&m));
    assert_eq!(m.active.imported, u64::MAX as u128);
}

#[test]
fn registers_never_decrease_over_a_series_of_sign_combinations() {
    let mut m = EnergyMetrics::default();
    let mut seed: u64 = 0x2545_f491_4f6c_dd1d;
    for _ in 0..2000 {
        seed ^= seed << 13;
        seed ^= seed >> 7;
        seed ^= seed << 17;
        let real = ((seed % 7) as i64 - 3) * 1_000_000_000_000_000;
        let reactive = (((seed >> 8) % 7) as i64 - 3) * 500_000_000_000_000;
        let before = registers(&m);
        m.accumulate(real, reactive, 156, 7_812_500);
        let after = registers(&m);
        let mut changed_active = 0;
        let mut changed_reactive = 0;
        for i in 0..8 {
            assert!(after[i] >= before[i]);
            if after[i] != before[i] {
                if i < 4 {
                    changed_active += 1;
                } else {
                    changed_reactive += 1;
                }
            }
        }
        if real != 0 && reactive != 0 {
            assert_eq!(changed_active, 1);
            assert_eq!(changed_reactive, 1);
        } else {
            assert_eq!(changed_active, 0);
            assert_eq!(changed_reactive, 0);
        }
        assert!(sums_agree(&m));
    }
}

#[test]
fn socket_energy_uses_the_powers_and_the_wave_of_the_socket() {
    let mut socket = MetrologyInsightSocket::default();
    socket.power_metrics.real_power = 18_000;
    socket.power_metrics.reactive_power = -36_000;
    socket.voltage_signal.real_wave = vec![0; 7200];
    update_total_energy(&mut socket, 1000);
    // 7200 samples at 1 Hz are 7200 s: 18 nW * 2 h = 36 nWh.
    assert_eq!(socket.energy_metrics.active.q4, 36);
    assert_eq!(socket.energy_metrics.reactive.q4, 72);
    assert_eq!(socket.energy_metrics.active.imported, 36);
    assert_eq!(socket.energy_metrics.reactive.capacitive, 72);
    assert_eq!(socket.energy_metrics.reactive.balance, -72);
}

#[test]
fn routing_and_sums_are_separate_steps() {
    let mut socket = MetrologyInsightSocket::default();
    socket.power_metrics.real_power = -18_000;
    socket.power_metrics.reactive_power = -36_000;
    socket.voltage_signal.real_wave = vec![0; 2];
    calculate_energy_by_cuadrant(&mut socket, 1);
    assert_eq!(socket.energy_metrics.active.q3, 10);
    assert_eq!(socket.energy_metrics.reactive.q3, 20);
    assert_eq!(socket.energy_metrics.active.exported, 0);
    calculate_energy(&mut socket);
    assert_eq!(socket.energy_metrics.active.exported, 10);
    assert_eq!(socket.energy_metrics.active.balance, -10);
    assert_eq!(socket.energy_metrics.reactive.inductive, 20);
    assert_eq!(socket.energy_metrics.reactive.balance, -20);
}
