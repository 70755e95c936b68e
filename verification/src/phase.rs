//! Phase angles: the absolute angle of each wave from its first rising zero
//! crossing, the signed angle from current to voltage, and the direction that
//! the signed angle shows. Angles are in millionths of a degree.

use vstd::prelude::*;
use crate::arith::{clamp, div_toward_zero, floor_sqrt, integer_sqrt, RATIO_ONE};
use crate::frequency::rising_at;
use crate::power::{dot, sum_of_products, POWER_LIMIT};
use crate::types::{MetrologyInsightSocket, PhaseAngleMetrics, PhaseDirection};

verus! {

/// A full turn of 360°.
pub const FULL_TURN: i64 = 360_000_000;

/// Angles of at most this magnitude count as no phase difference.
pub const PHASE_EPSILON: i64 = 1;

/// The index of the first sample from `from` on that ends a rising zero
/// crossing: it is not negative, and the sample before it is.
pub open spec fn first_rising_from(s: Seq<i32>, from: int) -> Option<int>
    decreases s.len() - from,
{
    if from >= s.len() {
        None
    } else if from >= 1 && rising_at(s, from - 1) {
        Some(from)
    } else {
        first_rising_from(s, from + 1)
    }
}

/// The index of the first sample of a wave that ends a rising zero crossing.
pub open spec fn first_rising_crossing(s: Seq<i32>) -> Option<int> {
    first_rising_from(s, 1)
}

/// The angle of a sample index in a cycle of `samples_per_cycle` thousandths
/// of a sample: 360° times the index by the samples of a cycle, rounded down,
/// less the full turns.
pub open spec fn angle_of_index(index: int, samples_per_cycle: int) -> int {
    ((index * 1000 * FULL_TURN) / samples_per_cycle) % (FULL_TURN as int)
}

/// The absolute angle of a wave: that of its first rising zero crossing, and
/// zero when it has none.
pub open spec fn absolute_angle(s: Seq<i32>, samples_per_cycle: int) -> int {
    match first_rising_crossing(s) {
        Some(index) => angle_of_index(index, samples_per_cycle),
        None => angle_of_index(0, samples_per_cycle),
    }
}

/// The cosine of the angle between two waves, in parts per million: their
/// inner product over the samples that both have, divided by the product of
/// their magnitudes; one when either magnitude is zero. The magnitudes are
/// rounded down, the quotient toward zero.
pub open spec fn phase_cosine(voltage: Seq<i32>, current: Seq<i32>) -> int {
    let n = if voltage.len() <= current.len() {
        voltage.len() as int
    } else {
        current.len() as int
    };
    let v_mag = floor_sqrt(dot(voltage, voltage, voltage.len() as int));
    let c_mag = floor_sqrt(dot(current, current, current.len() as int));
    if v_mag == 0 || c_mag == 0 {
        RATIO_ONE as int
    } else {
        clamp(
            div_toward_zero(dot(voltage, current, n) * RATIO_ONE, v_mag * c_mag),
            -RATIO_ONE,
            RATIO_ONE as int,
        )
    }
}

/// A power factor limited to the interval from minus one to one: the cosine
/// whose arc cosine is the magnitude of the angle from current to voltage.
pub open spec fn limited_power_factor(power_factor: int) -> int {
    clamp(power_factor, -RATIO_ONE, RATIO_ONE as int)
}

/// The signed angle from current to voltage: the arc cosine of the limited
/// power factor, negative when the reactive power is.
pub open spec fn signed_phase_angle(react_power: int, arc_cosine: int) -> int {
    if react_power < 0 {
        -arc_cosine
    } else {
        arc_cosine
    }
}

/// The direction that a signed angle shows.
pub open spec fn direction_of(c2v_angle: int) -> PhaseDirection {
    if c2v_angle > PHASE_EPSILON {
        PhaseDirection::Inductive
    } else if c2v_angle < -PHASE_EPSILON {
        PhaseDirection::Capacitive
    } else {
        PhaseDirection::InPhase
    }
}

/// The first rising crossing from `from` on is a rising crossing, and none
/// lies between `from` and it.
pub proof fn lemma_first_rising(s: Seq<i32>, from: int)
    requires
        1 <= from,
    ensures
        match first_rising_from(s, from) {
            Some(index) => from <= index < s.len() && rising_at(s, index - 1) && forall|p: int|
                from - 1 <= p < index - 1 ==> !#[trigger] rising_at(s, p),
            None => forall|p: int| from - 1 <= p < s.len() - 1 ==> !#[trigger] rising_at(s, p),
        },
    decreases s.len() - from,
{
    if from < s.len() && !rising_at(s, from - 1) {
        lemma_first_rising(s, from + 1);
    }
}

/// Finds the first sample that ends a rising zero crossing.
pub fn find_first_zero_crossing(signal: &[i32]) -> (found: Option<usize>)
    ensures
        found.is_some() == first_rising_crossing(signal@).is_some(),
        found.is_some() ==> found.unwrap() == first_rising_crossing(signal@).unwrap(),
        found.is_some() ==> 1 <= found.unwrap() < signal@.len(),
{
    let len: usize = signal.len();
    let mut i: usize = 1;
    while i < len
        invariant
            1 <= i,
            len == signal@.len(),
            first_rising_crossing(signal@) == first_rising_from(signal@, i as int),
        decreases len - i,
    {
        if signal[i - 1] < 0 && signal[i] >= 0 {
            return Some(i);
        }
        i = i + 1;
    }
    None
}

/// The angle of a sample index in a cycle of `samples_per_cycle` thousandths
/// of a sample, from zero up to a full turn.
pub fn sample_index_to_angle(sample_index: usize, samples_per_cycle: u32) -> (angle: i64)
    requires
        samples_per_cycle > 0,
    ensures
        angle == angle_of_index(sample_index as int, samples_per_cycle as int),
        0 <= angle < FULL_TURN,
{
    let turn: u128 = FULL_TURN as u128;
    assert(turn == 360_000_000);
    let scaled: u128 = sample_index as u128 * 1000 * turn;
    assert(sample_index * 1000 * FULL_TURN == scaled);
    ((scaled / samples_per_cycle as u128) % turn) as i64
}

/// The absolute angles of the voltage and of the current wave.
pub fn absolute_phase_angles_from_signals(
    voltage_signal: &[i32],
    current_signal: &[i32],
    samples_per_cycle: u32,
) -> (angles: (i64, i64))
    requires
        samples_per_cycle > 0,
    ensures
        angles.0 == absolute_angle(voltage_signal@, samples_per_cycle as int),
        angles.1 == absolute_angle(current_signal@, samples_per_cycle as int),
        0 <= angles.0 < FULL_TURN,
        0 <= angles.1 < FULL_TURN,
{
    let v_index: usize = match find_first_zero_crossing(voltage_signal) {
        Some(index) => index,
        None => 0,
    };
    let c_index: usize = match find_first_zero_crossing(current_signal) {
        Some(index) => index,
        None => 0,
    };
    (
        sample_index_to_angle(v_index, samples_per_cycle),
        sample_index_to_angle(c_index, samples_per_cycle),
    )
}

/// The cosine of the angle between a voltage and a current wave, in parts
/// per million. Its arc cosine is the magnitude of the angle from current to
/// voltage. Neither wave may have more samples than fit 32 bits.
pub fn phase_cosine_from_signals(voltage: &[i32], current: &[i32]) -> (cosine: i64)
    requires
        voltage@.len() <= u32::MAX,
        current@.len() <= u32::MAX,
    ensures
        cosine == phase_cosine(voltage@, current@),
        -RATIO_ONE <= cosine <= RATIO_ONE,
{
    let n: usize = if voltage.len() <= current.len() {
        voltage.len()
    } else {
        current.len()
    };
    let v_square: i128 = sum_of_products(voltage, voltage, voltage.len());
    let c_square: i128 = sum_of_products(current, current, current.len());
    let inner: i128 = sum_of_products(voltage, current, n);
    proof {
        lemma_dot_not_negative(voltage@, voltage@.len() as int);
        lemma_dot_not_negative(current@, current@.len() as int);
    }
    let v_mag: u64 = integer_sqrt(v_square as u128);
    let c_mag: u64 = integer_sqrt(c_square as u128);
    if v_mag == 0 || c_mag == 0 {
        return RATIO_ONE;
    }
    let one: i128 = RATIO_ONE as i128;
    assert(one == 1_000_000);
    assert(v_mag * c_mag > 0) by (nonlinear_arith)
        requires
            v_mag > 0,
            c_mag > 0,
    ;
    assert(-(0xffff_ffff * POWER_LIMIT) <= inner <= 0xffff_ffff * POWER_LIMIT) by (nonlinear_arith)
        requires
            -(n * POWER_LIMIT) <= inner <= n * POWER_LIMIT,
            0 <= n <= 0xffff_ffff,
            POWER_LIMIT == 0x4000_0000_0000_0000,
    ;
    proof {
        assert(v_mag < 0x1_0000_0000_0000) by (nonlinear_arith)
            requires
                v_mag * v_mag <= v_square,
                v_square <= voltage@.len() * POWER_LIMIT,
                voltage@.len() <= 0xffff_ffff,
                POWER_LIMIT == 0x4000_0000_0000_0000,
                0 <= v_mag,
        ;
        assert(c_mag < 0x1_0000_0000_0000) by (nonlinear_arith)
            requires
                c_mag * c_mag <= c_square,
                c_square <= current@.len() * POWER_LIMIT,
                current@.len() <= 0xffff_ffff,
                POWER_LIMIT == 0x4000_0000_0000_0000,
                0 <= c_mag,
        ;
        assert(v_mag * c_mag < 0x1_0000_0000_0000 * 0x1_0000_0000_0000) by (nonlinear_arith)
            requires
                0 <= v_mag < 0x1_0000_0000_0000,
                0 <= c_mag < 0x1_0000_0000_0000,
        ;
    }
    let magnitudes: u128 = v_mag as u128 * c_mag as u128;
    let quotient: i128 = (inner * one) / (magnitudes as i128);
    if quotient < -one {
        -RATIO_ONE
    } else if quotient > one {
        RATIO_ONE
    } else {
        quotient as i64
    }
}

/// The sum of the squares of the samples of a wave is not negative.
pub proof fn lemma_dot_not_negative(s: Seq<i32>, n: int)
    requires
        0 <= n <= s.len(),
    ensures
        dot(s, s, n) >= 0,
    decreases n,
{
    if n > 0 {
        lemma_dot_not_negative(s, n - 1);
        let x: int = s[n - 1] as int;
        assert(x * x >= 0) by (nonlinear_arith);
    }
}

/// Limits a power factor in parts per million to the interval from minus
/// one to one. The caller takes the arc cosine of the result.
pub fn power_factor_cosine(power_factor: i64) -> (cosine: i64)
    ensures
        cosine == limited_power_factor(power_factor as int),
        -RATIO_ONE <= cosine <= RATIO_ONE,
{
    if power_factor < -RATIO_ONE {
        -RATIO_ONE
    } else if power_factor > RATIO_ONE {
        RATIO_ONE
    } else {
        power_factor
    }
}

/// The signed angle from current to voltage that belongs to a power factor
/// and a reactive power. `arc_cosine` is the arc cosine of the power factor
/// limited to minus one to one, which the caller evaluates from
/// `power_factor_cosine`; the power factor itself does not enter the result.
/// The angle is the arc cosine, negative when the reactive power is.
#[allow(unused_variables)]
pub fn phase_angle_from_pf_and_react_power(power_factor: i64, react_power: i64, arc_cosine: u32) -> (angle:
    i64)
    ensures
        angle == signed_phase_angle(react_power as int, arc_cosine as int),
{
    if react_power < 0 {
        -(arc_cosine as i64)
    } else {
        arc_cosine as i64
    }
}

/// The direction that a signed angle shows: inductive above the tolerance,
/// capacitive below its negative, in phase between.
pub fn phase_direction(c2v_angle: i64) -> (direction: PhaseDirection)
    ensures
        direction == direction_of(c2v_angle as int),
{
    if c2v_angle > PHASE_EPSILON {
        PhaseDirection::Inductive
    } else if c2v_angle < -PHASE_EPSILON {
        PhaseDirection::Capacitive
    } else {
        PhaseDirection::InPhase
    }
}

/// The phase angles of one acquisition: the absolute angles of both waves,
/// the given signed angle from current to voltage, and its direction.
pub fn all_phase_angles_from_signals(
    voltage_signal: &[i32],
    current_signal: &[i32],
    samples_per_cycle: u32,
    c2v_angle: i64,
) -> (angles: PhaseAngleMetrics)
    requires
        samples_per_cycle > 0,
    ensures
        angles.c2v_angle == c2v_angle,
        angles.v_angle == absolute_angle(voltage_signal@, samples_per_cycle as int),
        angles.c_angle == absolute_angle(current_signal@, samples_per_cycle as int),
        angles.direction == direction_of(c2v_angle as int),
        0 <= angles.v_angle < FULL_TURN,
        0 <= angles.c_angle < FULL_TURN,
{
    let (v_angle, c_angle) = absolute_phase_angles_from_signals(
        voltage_signal,
        current_signal,
        samples_per_cycle,
    );
    PhaseAngleMetrics { c2v_angle, v_angle, c_angle, direction: phase_direction(c2v_angle) }
}

/// Stores the phase angles of the waves that the socket holds.
pub fn update_phase_angles(socket: &mut MetrologyInsightSocket, samples_per_cycle: u32, c2v_angle: i64)
    requires
        samples_per_cycle > 0,
    ensures
        final(socket).phase_angles.c2v_angle == c2v_angle,
        final(socket).phase_angles.v_angle == absolute_angle(
            old(socket).voltage_signal.real_wave@,
            samples_per_cycle as int,
        ),
        final(socket).phase_angles.c_angle == absolute_angle(
            old(socket).current_signal.real_wave@,
            samples_per_cycle as int,
        ),
        final(socket).phase_angles.direction == direction_of(c2v_angle as int),
        final(socket).voltage_signal == old(socket).voltage_signal,
        final(socket).current_signal == old(socket).current_signal,
        final(socket).power_metrics == old(socket).power_metrics,
        final(socket).energy_metrics == old(socket).energy_metrics,
{
    socket.phase_angles = all_phase_angles_from_signals(
        socket.voltage_signal.real_wave.as_slice(),
        socket.current_signal.real_wave.as_slice(),
        samples_per_cycle,
        c2v_angle,
    );
}

} // verus!
