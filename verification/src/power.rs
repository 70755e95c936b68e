//! Mean power of two waves over a window of fractional length, and what
//! follows from it: root mean square, real, reactive and apparent power and
//! the power factor.

use vstd::prelude::*;
use crate::arith::{
    clamp,
    div_toward_zero,
    floor_sqrt,
    integer_sqrt,
    is_floor_sqrt,
    lemma_fraction_within,
    lemma_quotient_bound,
    RATIO_ONE,
};
use crate::smoothing::{lemma_smoothed_between, smoothed, update_average};
use crate::types::{MetrologyInsightSignal, MetrologyInsightSocket, PowerMetrics};

verus! {

/// Largest magnitude of the mean power of two waves: the square of the
/// largest magnitude of a sample.
pub const POWER_LIMIT: i64 = 0x4000_0000_0000_0000;

/// The sum of the products of the first `n` samples of two waves.
pub open spec fn dot(a: Seq<i32>, b: Seq<i32>, n: int) -> int
    decreases n,
{
    if n <= 0 {
        0
    } else {
        dot(a, b, n - 1) + a[n - 1] * b[n - 1]
    }
}

/// Number of whole samples in the window: `length`, as far as both waves
/// reach.
pub open spec fn whole_samples(length: int, len1: int, len2: int) -> int {
    if length <= len1 && length <= len2 {
        length
    } else if len1 <= len2 {
        len1
    } else {
        len2
    }
}

/// The fraction of a sample by which a cycle of `frequency` exceeds a whole
/// number of samples at the sampling rate `adc_samples_second`, as a multiple
/// of `1 / frequency`; zero when no frequency is known.
pub open spec fn cycle_fraction(adc_samples_second: int, frequency: int) -> int {
    if frequency > 0 {
        adc_samples_second % frequency
    } else {
        0
    }
}

/// The sample at the fractional position `n + r / f`, interpolated linearly
/// between the samples `n` and `n + 1`; the step is rounded toward zero.
pub open spec fn boundary_sample(s: Seq<i32>, n: int, r: int, f: int) -> int {
    s[n] + div_toward_zero((s[n + 1] - s[n]) * r, f)
}

/// The mean of the product of two waves over a window of `length` whole
/// samples and the fraction `r / frequency` of one more, where `r` is
/// `cycle_fraction`. The whole samples count fully; the sample behind them,
/// interpolated at the end of the window, counts with the weight of the
/// fraction, if both waves reach one sample beyond it. The sum is divided by
/// the length of the window, `length + r / frequency`, and rounded toward
/// zero. Without a frequency the window has no fraction. An empty window or
/// wave gives zero.
pub open spec fn signal_power(
    s1: Seq<i32>,
    s2: Seq<i32>,
    length: int,
    frequency: int,
    adc_samples_second: int,
) -> int {
    if length <= 0 || s1.len() == 0 || s2.len() == 0 {
        0
    } else {
        let sum = dot(s1, s2, whole_samples(length, s1.len() as int, s2.len() as int));
        if frequency > 0 {
            let r = cycle_fraction(adc_samples_second, frequency);
            let edge = if r != 0 && length + 1 < s1.len() && length + 1 < s2.len() {
                boundary_sample(s1, length, r, frequency) * boundary_sample(
                    s2,
                    length,
                    r,
                    frequency,
                ) * r
            } else {
                0
            };
            div_toward_zero(sum * frequency + edge, length * frequency + r)
        } else {
            div_toward_zero(sum, length)
        }
    }
}

/// The root mean square of a wave over the window of `signal_power`.
pub open spec fn rms(s: Seq<i32>, length_cycle: int, frequency: int, adc_samples_second: int) -> int {
    floor_sqrt(signal_power(s, s, length_cycle, frequency, adc_samples_second))
}

/// A quarter of `length` samples, rounded to the nearest integer.
pub open spec fn quarter_cycle(length: int) -> int {
    (length + 2) / 4
}

/// The wave advanced by `shift` samples, wrapping around its end.
pub open spec fn shifted_wave(s: Seq<i32>, shift: int) -> Seq<i32> {
    Seq::new(s.len(), |i: int| s[(i + shift) % (s.len() as int)])
}

/// Reactive power: the mean power of the voltage and of the current advanced
/// by a quarter of a cycle. It is positive when the current lags the voltage.
pub open spec fn reactive_power(
    voltage: Seq<i32>,
    current: Seq<i32>,
    length: int,
    frequency: int,
    adc_samples_second: int,
) -> int {
    signal_power(
        voltage,
        shifted_wave(current, quarter_cycle(length)),
        length,
        frequency,
        adc_samples_second,
    )
}

/// Apparent power: the root of the sum of the squares of real and reactive
/// power, rounded down.
pub open spec fn apparent_power(active: int, reactive: int) -> int {
    floor_sqrt(active * active + reactive * reactive)
}

/// Reactive power from apparent and active power, by Pythagoras, rounded
/// down; zero when the active power reaches the apparent power.
pub open spec fn reactive_from_apparent(apparent: int, active: int) -> int {
    if active < apparent {
        floor_sqrt(apparent * apparent - active * active)
    } else {
        0
    }
}

/// Power factor in parts per million: real by apparent power, rounded toward
/// zero and limited to the interval from minus one to one; zero without
/// apparent power.
pub open spec fn power_factor(apparent: int, active: int) -> int {
    if apparent > 0 {
        clamp(div_toward_zero(active * RATIO_ONE, apparent), -RATIO_ONE, RATIO_ONE as int)
    } else if apparent < 0 {
        clamp(div_toward_zero(-active * RATIO_ONE, -apparent), -RATIO_ONE, RATIO_ONE as int)
    } else {
        0
    }
}

proof fn lemma_product_bound(a: int, b: int)
    requires
        -0x8000_0000 <= a <= 0x8000_0000,
        -0x8000_0000 <= b <= 0x8000_0000,
    ensures
        -POWER_LIMIT <= a * b <= POWER_LIMIT,
{
    assert(-0x4000_0000_0000_0000 <= a * b <= 0x4000_0000_0000_0000) by (nonlinear_arith)
        requires
            -0x8000_0000 <= a <= 0x8000_0000,
            -0x8000_0000 <= b <= 0x8000_0000,
    ;
}

/// The sum of `n` products of samples is at most `n` times the largest
/// product in magnitude.
pub proof fn lemma_dot_bound(a: Seq<i32>, b: Seq<i32>, n: int)
    requires
        0 <= n <= a.len(),
        n <= b.len(),
    ensures
        -(n * POWER_LIMIT) <= dot(a, b, n) <= n * POWER_LIMIT,
    decreases n,
{
    if n > 0 {
        lemma_dot_bound(a, b, n - 1);
        lemma_product_bound(a[n - 1] as int, b[n - 1] as int);
    }
}

/// The mean power of two waves is at most the largest product of two samples
/// in magnitude.
pub proof fn lemma_signal_power_bound(
    s1: Seq<i32>,
    s2: Seq<i32>,
    length: int,
    frequency: int,
    adc_samples_second: int,
)
    requires
        0 <= adc_samples_second,
    ensures
        -POWER_LIMIT <= signal_power(s1, s2, length, frequency, adc_samples_second) <= POWER_LIMIT,
{
    if length <= 0 || s1.len() == 0 || s2.len() == 0 {
    } else {
        let n = length;
        let full = whole_samples(length, s1.len() as int, s2.len() as int);
        let sum = dot(s1, s2, full);
        let limit = POWER_LIMIT as int;
        lemma_dot_bound(s1, s2, full);
        if frequency > 0 {
            let r = cycle_fraction(adc_samples_second, frequency);
            let window = n * frequency + r;
            assert(n * frequency > 0) by (nonlinear_arith)
                requires
                    n > 0,
                    frequency > 0,
            ;
            let edge = if r != 0 && n + 1 < s1.len() && n + 1 < s2.len() {
                boundary_sample(s1, n, r, frequency) * boundary_sample(s2, n, r, frequency) * r
            } else {
                0
            };
            assert(-(limit * r) <= edge <= limit * r) by {
                if r != 0 && n + 1 < s1.len() && n + 1 < s2.len() {
                    lemma_boundary_sample(s1, n, r, frequency);
                    lemma_boundary_sample(s2, n, r, frequency);
                    let y1 = boundary_sample(s1, n, r, frequency);
                    let y2 = boundary_sample(s2, n, r, frequency);
                    lemma_product_bound(y1, y2);
                    assert(-(limit * r) <= (y1 * y2) * r <= limit * r) by (nonlinear_arith)
                        requires
                            -limit <= y1 * y2 <= limit,
                            r >= 0,
                    ;
                } else {
                    assert(limit * r >= 0) by (nonlinear_arith)
                        requires
                            limit >= 0,
                            r >= 0,
                    ;
                }
            }
            assert(-(limit * (n * frequency)) <= sum * frequency <= limit * (n * frequency))
                by (nonlinear_arith)
                requires
                    -(full * limit) <= sum <= full * limit,
                    0 <= full <= n,
                    frequency > 0,
                    limit >= 0,
            ;
            assert(limit * (n * frequency) + limit * r == limit * window) by (nonlinear_arith)
                requires
                    window == n * frequency + r,
            ;
            lemma_quotient_bound(sum * frequency + edge, window, limit);
        } else {
            assert(-(limit * length) <= sum <= limit * length) by (nonlinear_arith)
                requires
                    -(full * limit) <= sum <= full * limit,
                    0 <= full <= length,
                    limit >= 0,
            ;
            lemma_quotient_bound(sum, length, limit);
        }
    }
}

/// Apparent power squares to the sum of the squares of real and reactive
/// power, or just below it; it is at least the magnitude of either and at
/// most the sum of their magnitudes.
pub proof fn lemma_apparent_power_bounds(active: int, reactive: int)
    ensures
        is_floor_sqrt(active * active + reactive * reactive, apparent_power(active, reactive)),
        apparent_power(active, reactive) >= active,
        apparent_power(active, reactive) >= -active,
        apparent_power(active, reactive) >= reactive,
        apparent_power(active, reactive) >= -reactive,
        active >= 0 && reactive >= 0 ==> apparent_power(active, reactive) <= active + reactive,
{
    let squares: int = active * active + reactive * reactive;
    assert(active * active >= 0 && reactive * reactive >= 0) by (nonlinear_arith);
    crate::arith::lemma_floor_sqrt_is_floor_sqrt(squares);
    let apparent: int = apparent_power(active, reactive);
    assert(apparent >= active && apparent >= -active) by (nonlinear_arith)
        requires
            squares < (apparent + 1) * (apparent + 1),
            squares >= active * active,
            apparent >= 0,
    ;
    assert(apparent >= reactive && apparent >= -reactive) by (nonlinear_arith)
        requires
            squares < (apparent + 1) * (apparent + 1),
            squares >= reactive * reactive,
            apparent >= 0,
    ;
    if active >= 0 && reactive >= 0 {
        assert(apparent <= active + reactive) by (nonlinear_arith)
            requires
                apparent * apparent <= squares,
                squares == active * active + reactive * reactive,
                active >= 0,
                reactive >= 0,
                apparent >= 0,
        ;
    }
}

/// The power factor lies between minus one and one, whatever the powers.
pub proof fn lemma_power_factor_bounds(apparent: int, active: int)
    ensures
        -RATIO_ONE <= power_factor(apparent, active) <= RATIO_ONE,
{
}

/// An interpolated sample lies between the two samples around it.
proof fn lemma_boundary_sample(s: Seq<i32>, n: int, r: int, f: int)
    requires
        0 <= n,
        n + 1 < s.len(),
        0 <= r < f,
    ensures
        s[n] <= s[n + 1] ==> s[n] <= boundary_sample(s, n, r, f) <= s[n + 1],
        s[n + 1] <= s[n] ==> s[n + 1] <= boundary_sample(s, n, r, f) <= s[n],
        i32::MIN <= boundary_sample(s, n, r, f) <= i32::MAX,
{
    lemma_fraction_within(r, f, s[n + 1] - s[n]);
    assert((s[n + 1] - s[n]) * r == r * (s[n + 1] - s[n])) by (nonlinear_arith);
}

/// Sums the products of the first `n` samples of two waves.
pub fn sum_of_products(signal1: &[i32], signal2: &[i32], n: usize) -> (sum: i128)
    requires
        n <= signal1@.len(),
        n <= signal2@.len(),
        n <= u32::MAX,
    ensures
        sum == dot(signal1@, signal2@, n as int),
        -(n * POWER_LIMIT) <= sum <= n * POWER_LIMIT,
{
    let mut sum: i128 = 0;
    let mut i: usize = 0;
    while i < n
        invariant
            i <= n <= signal1@.len(),
            n <= signal2@.len(),
            n <= u32::MAX,
            sum == dot(signal1@, signal2@, i as int),
        decreases n - i,
    {
        proof {
            lemma_dot_bound(signal1@, signal2@, i as int);
            lemma_product_bound(signal1@[i as int] as int, signal2@[i as int] as int);
        }
        sum = sum + (signal1[i] as i64 * signal2[i] as i64) as i128;
        i = i + 1;
    }
    proof {
        lemma_dot_bound(signal1@, signal2@, n as int);
    }
    sum
}

/// Interpolates the sample at the fractional position `n + r / f`.
fn interpolate(signal: &[i32], n: usize, r: u32, f: u32) -> (y: i32)
    requires
        n + 1 < signal@.len(),
        r < f,
    ensures
        y == boundary_sample(signal@, n as int, r as int, f as int),
{
    let len: usize = signal.len();
    let rise: i64 = signal[n + 1] as i64 - signal[n] as i64;
    assert(-0xffff_ffff * 0xffff_ffff <= rise * r <= 0xffff_ffff * 0xffff_ffff)
        by (nonlinear_arith)
        requires
            -0xffff_ffff <= rise <= 0xffff_ffff,
            0 <= r <= 0xffff_ffff,
    ;
    let step: i128 = (rise as i128 * r as i128) / (f as i128);
    proof {
        lemma_boundary_sample(signal@, n as int, r as int, f as int);
    }
    (signal[n] as i128 + step) as i32
}

/// The mean of the product of two waves over the window that `length`,
/// `frequency` and the sampling rate describe: see `signal_power`. With two
/// voltage or two current waves in millionths of a unit the result is in
/// millionths of millionths of the unit squared; with a voltage and a current
/// wave it is in picowatts. One of `length` and the length of the first wave
/// must fit 32 bits.
pub fn calculate_signal_power(
    signal1: &[i32],
    signal2: &[i32],
    length: usize,
    frequency: u32,
    adc_samples_second: u32,
) -> (power: i64)
    requires
        length <= u32::MAX || signal1@.len() <= u32::MAX,
    ensures
        power == signal_power(
            signal1@,
            signal2@,
            length as int,
            frequency as int,
            adc_samples_second as int,
        ),
        -POWER_LIMIT <= power <= POWER_LIMIT,
{
    proof {
        lemma_signal_power_bound(
            signal1@,
            signal2@,
            length as int,
            frequency as int,
            adc_samples_second as int,
        );
    }
    if length == 0 || signal1.len() == 0 || signal2.len() == 0 {
        return 0;
    }
    let full: usize = if length <= signal1.len() && length <= signal2.len() {
        length
    } else if signal1.len() <= signal2.len() {
        signal1.len()
    } else {
        signal2.len()
    };
    let sum: i128 = sum_of_products(signal1, signal2, full);
    if frequency > 0 {
        let r: u32 = adc_samples_second % frequency;
        let mut edge: i128 = 0;
        if r != 0 && length < usize::MAX && length + 1 < signal1.len() && length + 1 < signal2.len() {
            let y1: i32 = interpolate(signal1, length, r, frequency);
            let y2: i32 = interpolate(signal2, length, r, frequency);
            proof {
                lemma_product_bound(y1 as int, y2 as int);
                assert(-(POWER_LIMIT * 0xffff_ffff) <= (y1 * y2) * r <= POWER_LIMIT * 0xffff_ffff)
                    by (nonlinear_arith)
                    requires
                        -POWER_LIMIT <= y1 * y2 <= POWER_LIMIT,
                        0 <= r <= 0xffff_ffff,
                ;
            }
            edge = (y1 as i64 * y2 as i64) as i128 * r as i128;
        }
        assert(length * frequency <= 0xffff_ffff_ffff_ffff * 0xffff_ffff) by (nonlinear_arith)
            requires
                0 <= length <= 0xffff_ffff_ffff_ffff,
                0 <= frequency <= 0xffff_ffff,
        ;
        assert(length * frequency > 0) by (nonlinear_arith)
            requires
                length > 0,
                frequency > 0,
        ;
        let window: i128 = length as i128 * frequency as i128 + r as i128;
        assert(-(0xffff_ffff * POWER_LIMIT * 0xffff_ffff) <= sum * frequency <= 0xffff_ffff
            * POWER_LIMIT * 0xffff_ffff) by (nonlinear_arith)
            requires
                -(full * POWER_LIMIT) <= sum <= full * POWER_LIMIT,
                0 <= full <= 0xffff_ffff,
                0 <= frequency <= 0xffff_ffff,
                POWER_LIMIT == 0x4000_0000_0000_0000,
        ;
        let total: i128 = sum * frequency as i128 + edge;
        (total / window) as i64
    } else {
        (sum / length as i128) as i64
    }
}

/// The root mean square of a wave over the window that `length_cycle`,
/// `frequency` and the sampling rate describe, rounded down, in the unit of
/// the samples. Zero for an empty window or wave. One of `length_cycle` and
/// the length of the wave must fit 32 bits.
pub fn calculate_rms(signal: &[i32], length_cycle: usize, frequency: u32, adc_samples_second: u32) -> (r:
    u32)
    requires
        length_cycle <= u32::MAX || signal@.len() <= u32::MAX,
    ensures
        r == rms(signal@, length_cycle as int, frequency as int, adc_samples_second as int),
{
    if length_cycle == 0 || signal.len() == 0 {
        proof {
            crate::arith::lemma_floor_sqrt_unique(0, 0);
        }
        return 0;
    }
    let power: i64 = calculate_signal_power(
        signal,
        signal,
        length_cycle,
        frequency,
        adc_samples_second,
    );
    if power > 0 {
        let root: u64 = integer_sqrt(power as u128);
        assert(root <= 0x8000_0000) by (nonlinear_arith)
            requires
                root * root <= power,
                power <= 0x4000_0000_0000_0000,
                0 <= root,
        ;
        root as u32
    } else {
        proof {
            if power == 0 {
                crate::arith::lemma_floor_sqrt_unique(0, 0);
            }
        }
        0
    }
}

/// Advances a wave by `shift` samples, wrapping around its end.
pub fn shift_wave(signal: &[i32], shift: usize) -> (shifted: Vec<i32>)
    ensures
        shifted@ == shifted_wave(signal@, shift as int),
{
    let len: usize = signal.len();
    let mut shifted: Vec<i32> = Vec::new();
    let mut i: usize = 0;
    while i < len
        invariant
            i <= len,
            len == signal@.len(),
            shifted@.len() == i,
            forall|k: int|
                0 <= k < i ==> #[trigger] shifted@[k] == signal@[(k + shift) % (len as int)],
        decreases len - i,
    {
        let from: u128 = (i as u128 + shift as u128) % (len as u128);
        shifted.push(signal[from as usize]);
        i = i + 1;
    }
    assert(shifted@ =~= shifted_wave(signal@, shift as int));
    shifted
}

/// Real power of a voltage and a current wave, in picowatts: their mean
/// power over the window of `calculate_signal_power`.
pub fn real_power_from_signals(
    signal_v: &[i32],
    signal_i: &[i32],
    length: usize,
    frequency: u32,
    adc_samples_second: u32,
) -> (power: i64)
    requires
        length <= u32::MAX || signal_v@.len() <= u32::MAX,
    ensures
        power == signal_power(
            signal_v@,
            signal_i@,
            length as int,
            frequency as int,
            adc_samples_second as int,
        ),
        -POWER_LIMIT <= power <= POWER_LIMIT,
{
    calculate_signal_power(signal_v, signal_i, length, frequency, adc_samples_second)
}

/// Reactive power of a voltage and a current wave, in picowatts: the mean
/// power of the voltage and of the current advanced by a quarter of a cycle,
/// wrapping around the end of the buffer.
pub fn reactive_power_from_signals(
    signal_v: &[i32],
    signal_i: &[i32],
    length: usize,
    frequency: u32,
    adc_samples_second: u32,
) -> (power: i64)
    requires
        length <= u32::MAX || signal_v@.len() <= u32::MAX,
    ensures
        power == reactive_power(
            signal_v@,
            signal_i@,
            length as int,
            frequency as int,
            adc_samples_second as int,
        ),
        -POWER_LIMIT <= power <= POWER_LIMIT,
{
    let shift: usize = length / 4 + (length % 4 + 2) / 4;
    let shifted: Vec<i32> = shift_wave(signal_i, shift);
    calculate_signal_power(signal_v, shifted.as_slice(), length, frequency, adc_samples_second)
}

/// Apparent power from the root mean squares of voltage and current, in
/// picowatts when these are in millionths of a volt and of an ampere.
pub fn apparent_power_from_rms(voltage_rms: u32, current_rms: u32) -> (apparent: u64)
    ensures
        apparent == voltage_rms * current_rms,
{
    assert(voltage_rms * current_rms <= 0xffff_ffff * 0xffff_ffff) by (nonlinear_arith)
        requires
            0 <= voltage_rms <= 0xffff_ffff,
            0 <= current_rms <= 0xffff_ffff,
    ;
    voltage_rms as u64 * current_rms as u64
}

/// Real power from the root mean squares of voltage and current and the
/// power factor in parts per million, which must lie between minus one and
/// one; rounded toward zero.
pub fn real_power_from_rms_and_power_factor(voltage_rms: u32, current_rms: u32, power_factor: i64) -> (power:
    i128)
    requires
        -RATIO_ONE <= power_factor <= RATIO_ONE,
    ensures
        power == div_toward_zero(voltage_rms * current_rms * power_factor, RATIO_ONE as int),
{
    let apparent: i128 = apparent_power_from_rms(voltage_rms, current_rms) as i128;
    assert(-(0xffff_ffff_ffff_ffff * 1_000_000) <= apparent * power_factor <= 0xffff_ffff_ffff_ffff
        * 1_000_000) by (nonlinear_arith)
        requires
            0 <= apparent <= 0xffff_ffff_ffff_ffff,
            -1_000_000 <= power_factor <= 1_000_000,
    ;
    (apparent * power_factor as i128) / (RATIO_ONE as i128)
}

/// Apparent power from real and reactive power, in their unit.
pub fn apparent_power_from_real_and_reactive(real_power: i64, reactive_power: i64) -> (apparent:
    u64)
    ensures
        apparent == apparent_power(real_power as int, reactive_power as int),
        (-POWER_LIMIT <= real_power <= POWER_LIMIT && -POWER_LIMIT <= reactive_power
            <= POWER_LIMIT) ==> apparent <= i64::MAX,
{
    let p: i128 = real_power as i128;
    let q: i128 = reactive_power as i128;
    assert(0 <= p * p <= 0x8000_0000_0000_0000 * 0x8000_0000_0000_0000) by (nonlinear_arith)
        requires
            -0x8000_0000_0000_0000 <= p <= 0x8000_0000_0000_0000,
    ;
    assert(0 <= q * q <= 0x8000_0000_0000_0000 * 0x8000_0000_0000_0000) by (nonlinear_arith)
        requires
            -0x8000_0000_0000_0000 <= q <= 0x8000_0000_0000_0000,
    ;
    let squares: u128 = (p * p) as u128 + (q * q) as u128;
    let apparent: u64 = integer_sqrt(squares);
    proof {
        if -POWER_LIMIT <= real_power <= POWER_LIMIT && -POWER_LIMIT <= reactive_power
            <= POWER_LIMIT {
            assert(p * p <= 0x4000_0000_0000_0000 * 0x4000_0000_0000_0000) by (nonlinear_arith)
                requires
                    -0x4000_0000_0000_0000 <= p <= 0x4000_0000_0000_0000,
            ;
            assert(q * q <= 0x4000_0000_0000_0000 * 0x4000_0000_0000_0000) by (nonlinear_arith)
                requires
                    -0x4000_0000_0000_0000 <= q <= 0x4000_0000_0000_0000,
            ;
            assert(apparent < 0x8000_0000_0000_0000) by (nonlinear_arith)
                requires
                    apparent * apparent <= squares,
                    squares <= 2 * (0x4000_0000_0000_0000 * 0x4000_0000_0000_0000),
                    0 <= apparent,
            ;
        }
    }
    apparent
}

/// Reactive power from apparent and active power, in their unit.
pub fn reactive_power_from_apparent_and_active(apparent_power: i64, active_power: i64) -> (reactive:
    u64)
    ensures
        reactive == reactive_from_apparent(apparent_power as int, active_power as int),
{
    if active_power < apparent_power {
        let s: i128 = apparent_power as i128;
        let p: i128 = active_power as i128;
        assert(0 <= s * s <= 0x8000_0000_0000_0000 * 0x8000_0000_0000_0000) by (nonlinear_arith)
            requires
                -0x8000_0000_0000_0000 <= s <= 0x8000_0000_0000_0000,
        ;
        assert(0 <= p * p <= 0x8000_0000_0000_0000 * 0x8000_0000_0000_0000) by (nonlinear_arith)
            requires
                -0x8000_0000_0000_0000 <= p <= 0x8000_0000_0000_0000,
        ;
        let difference: i128 = s * s - p * p;
        if difference > 0 {
            integer_sqrt(difference as u128)
        } else {
            proof {
                if difference == 0 {
                    crate::arith::lemma_floor_sqrt_unique(0, 0);
                }
            }
            0
        }
    } else {
        0
    }
}

/// Power factor from apparent and real power, in parts per million.
pub fn power_factor_from_apparent_and_real(apparent_power: i64, real_power: i64) -> (factor: i64)
    ensures
        factor == power_factor(apparent_power as int, real_power as int),
        -RATIO_ONE <= factor <= RATIO_ONE,
{
    if apparent_power == 0 {
        return 0;
    }
    let one: i128 = RATIO_ONE as i128;
    assert(one == 1_000_000);
    let quotient: i128 = if apparent_power > 0 {
        (real_power as i128 * one) / (apparent_power as i128)
    } else {
        (-(real_power as i128) * one) / (-(apparent_power as i128))
    };
    if quotient < -(RATIO_ONE as i128) {
        -RATIO_ONE
    } else if quotient > RATIO_ONE as i128 {
        RATIO_ONE
    } else {
        quotient as i64
    }
}

/// The frequency that a smoothed state holds, limited to the range of a
/// frequency in millihertz.
pub open spec fn frequency_of_state(state: i64) -> int {
    clamp(state as int, 0, u32::MAX as int)
}

/// The powers of one acquisition, before smoothing: real and reactive power
/// of the calibrated waves over the whole cycles of the voltage at its
/// frequency, and the apparent power and power factor that follow from them.
pub open spec fn all_power_metrics(
    voltage_signal: MetrologyInsightSignal,
    current_signal: MetrologyInsightSignal,
    adc_samples_second: int,
) -> PowerMetrics {
    let frequency = frequency_of_state(voltage_signal.freq_zc);
    let length = voltage_signal.length_cycle as int;
    let active = signal_power(
        voltage_signal.real_wave@,
        current_signal.real_wave@,
        length,
        frequency,
        adc_samples_second,
    );
    let reactive = reactive_power(
        voltage_signal.real_wave@,
        current_signal.real_wave@,
        length,
        frequency,
        adc_samples_second,
    );
    let apparent = apparent_power(active, reactive);
    PowerMetrics {
        real_power: active as i64,
        reactive_power: reactive as i64,
        apparent_power: apparent as i64,
        power_factor: power_factor(apparent, active) as i64,
    }
}

/// Power metrics after the values of one acquisition went through the
/// exponential average, each on its own.
pub open spec fn smoothed_power_metrics(fresh: PowerMetrics, state: PowerMetrics, avg: int) -> PowerMetrics {
    PowerMetrics {
        real_power: smoothed(fresh.real_power as int, state.real_power as int, avg) as i64,
        reactive_power: smoothed(
            fresh.reactive_power as int,
            state.reactive_power as int,
            avg,
        ) as i64,
        apparent_power: smoothed(
            fresh.apparent_power as int,
            state.apparent_power as int,
            avg,
        ) as i64,
        power_factor: smoothed(fresh.power_factor as int, state.power_factor as int, avg) as i64,
    }
}

/// Limits a smoothed state to the range of a frequency in millihertz.
pub fn frequency_from_state(state: i64) -> (frequency: u32)
    ensures
        frequency == frequency_of_state(state),
{
    if state < 0 {
        0
    } else if state > u32::MAX as i64 {
        u32::MAX
    } else {
        state as u32
    }
}

/// Computes the powers of one acquisition from the calibrated waves of a
/// voltage and a current signal: real power, reactive power, apparent power
/// and power factor, before smoothing. The whole cycles of the voltage or
/// the length of its wave must fit 32 bits.
pub fn calculate_all_power_metrics(
    voltage_signal: &MetrologyInsightSignal,
    current_signal: &MetrologyInsightSignal,
    adc_samples_second: u32,
) -> (metrics: PowerMetrics)
    requires
        voltage_signal.length_cycle <= u32::MAX || voltage_signal.real_wave@.len() <= u32::MAX,
    ensures
        metrics == all_power_metrics(*voltage_signal, *current_signal, adc_samples_second as int),
        -POWER_LIMIT <= metrics.real_power <= POWER_LIMIT,
        -POWER_LIMIT <= metrics.reactive_power <= POWER_LIMIT,
        0 <= metrics.apparent_power,
        -RATIO_ONE <= metrics.power_factor <= RATIO_ONE,
{
    let frequency: u32 = frequency_from_state(voltage_signal.freq_zc);
    let length: usize = voltage_signal.length_cycle;
    let real_power: i64 = real_power_from_signals(
        voltage_signal.real_wave.as_slice(),
        current_signal.real_wave.as_slice(),
        length,
        frequency,
        adc_samples_second,
    );
    let reactive_power: i64 = reactive_power_from_signals(
        voltage_signal.real_wave.as_slice(),
        current_signal.real_wave.as_slice(),
        length,
        frequency,
        adc_samples_second,
    );
    let apparent: u64 = apparent_power_from_real_and_reactive(real_power, reactive_power);
    let apparent_power: i64 = apparent as i64;
    let power_factor: i64 = power_factor_from_apparent_and_real(apparent_power, real_power);
    PowerMetrics { real_power, reactive_power, apparent_power, power_factor }
}

/// Computes the powers of the signals that the socket holds and feeds each
/// of them to its exponential average in the socket, with the smoothing
/// constant `avg` in parts per million.
pub fn update_power_metrics(socket: &mut MetrologyInsightSocket, adc_samples_second: u32, avg: u32)
    requires
        old(socket).wf(),
        avg <= RATIO_ONE,
    ensures
        final(socket).power_metrics == smoothed_power_metrics(
            all_power_metrics(
                old(socket).voltage_signal,
                old(socket).current_signal,
                adc_samples_second as int,
            ),
            old(socket).power_metrics,
            avg as int,
        ),
        final(socket).voltage_signal == old(socket).voltage_signal,
        final(socket).current_signal == old(socket).current_signal,
        final(socket).phase_angles == old(socket).phase_angles,
        final(socket).energy_metrics == old(socket).energy_metrics,
        final(socket).wf(),
{
    let fresh: PowerMetrics = calculate_all_power_metrics(
        &socket.voltage_signal,
        &socket.current_signal,
        adc_samples_second,
    );
    proof {
        lemma_smoothed_between(
            fresh.power_factor as int,
            socket.power_metrics.power_factor as int,
            avg as int,
        );
    }
    let mut metrics: PowerMetrics = socket.power_metrics;
    update_average(fresh.real_power, &mut metrics.real_power, avg);
    update_average(fresh.reactive_power, &mut metrics.reactive_power, avg);
    update_average(fresh.apparent_power, &mut metrics.apparent_power, avg);
    update_average(fresh.power_factor, &mut metrics.power_factor, avg);
    socket.power_metrics = metrics;
}

} // verus!
