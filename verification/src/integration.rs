//! Integration of the wave of a sensor that delivers the derivative of the
//! measured quantity, such as a Rogowski coil.

use vstd::prelude::*;
use crate::arith::{clamp, div_toward_zero};
use crate::power::{calculate_rms, rms};

verus! {

/// Twice the integral of a wave over its first `n` samples, by the trapezoid
/// rule: the sum of each sample and its successor. The last sample is its own
/// successor.
pub open spec fn twice_integral(s: Seq<i32>, n: int) -> int
    decreases n,
{
    if n <= 0 {
        0
    } else {
        twice_integral(s, n - 1) + s[n - 1] + if n < s.len() {
            s[n] as int
        } else {
            s[n - 1] as int
        }
    }
}

/// The integral of a wave, divided by the number of its samples so that it
/// fits a sample, and rounded toward zero.
pub open spec fn integral_wave(s: Seq<i32>) -> Seq<i32> {
    Seq::new(s.len(), |i: int| div_toward_zero(twice_integral(s, i + 1), 2 * (s.len() as int)) as i32)
}

/// A sample of the integral scaled by the ratio of the root mean square of
/// the wave to that of the integral, rounded toward zero and limited to the
/// range of a sample. It stays as it is when either root mean square is zero.
pub open spec fn renormalized(value: i32, wave_rms: int, integral_rms: int) -> int {
    if wave_rms != 0 && integral_rms != 0 {
        clamp(div_toward_zero(value * wave_rms, integral_rms), i32::MIN as int, i32::MAX as int)
    } else {
        value as int
    }
}

/// The integral of a wave, scaled to the root mean square of the wave.
pub open spec fn integrated_wave(s: Seq<i32>, frequency: int, adc_samples_second: int) -> Seq<i32> {
    let integral = integral_wave(s);
    let wave_rms = rms(s, s.len() as int, frequency, adc_samples_second);
    let integral_rms = rms(integral, s.len() as int, frequency, adc_samples_second);
    Seq::new(s.len(), |i: int| renormalized(integral[i], wave_rms, integral_rms) as i32)
}

/// Twice the integral over some samples is bounded by their number.
pub proof fn lemma_twice_integral_bound(s: Seq<i32>, n: int)
    requires
        0 <= n <= s.len(),
    ensures
        -(n * 0x1_0000_0000) <= twice_integral(s, n) <= n * 0xffff_fffe,
    decreases n,
{
    if n > 0 {
        lemma_twice_integral_bound(s, n - 1);
    }
}

/// Half the mean of the sums of adjacent samples fits a sample.
proof fn lemma_integral_fits(total: int, terms: int, len: int)
    requires
        0 < terms <= len,
        -(terms * 0x1_0000_0000) <= total <= terms * 0xffff_fffe,
    ensures
        i32::MIN <= div_toward_zero(total, 2 * len) <= i32::MAX,
{
    if total >= 0 {
        assert(total / (2 * len) <= 0x7fff_ffff) by (nonlinear_arith)
            requires
                0 <= total <= terms * 0xffff_fffe,
                0 < terms <= len,
        ;
        assert(total / (2 * len) >= 0) by (nonlinear_arith)
            requires
                0 <= total,
                0 < len,
        ;
    } else {
        assert((-total) / (2 * len) <= 0x8000_0000) by (nonlinear_arith)
            requires
                0 <= -total <= terms * 0x1_0000_0000,
                0 < terms <= len,
        ;
        assert((-total) / (2 * len) >= 0) by (nonlinear_arith)
            requires
                0 <= -total,
                0 < len,
        ;
    }
}

/// Integrates a wave by the trapezoid rule and scales the integral so that
/// its root mean square over the whole buffer is that of the wave. The wave
/// may not have more samples than fit 32 bits.
pub fn signal_integrate(s: &[i32], frequency_zc: u32, adc_samples_second: u32) -> (res_signal: Vec<
    i32,
>)
    requires
        s@.len() <= u32::MAX,
    ensures
        res_signal@ == integrated_wave(s@, frequency_zc as int, adc_samples_second as int),
{
    let len: usize = s.len();
    let wave_rms: u32 = calculate_rms(s, len, frequency_zc, adc_samples_second);
    let mut integral: Vec<i32> = Vec::new();
    let mut total: i128 = 0;
    let mut i: usize = 0;
    while i < len
        invariant
            i <= len,
            len == s@.len(),
            len <= u32::MAX,
            total == twice_integral(s@, i as int),
            integral@.len() == i,
            forall|k: int| 0 <= k < i ==> #[trigger] integral@[k] == integral_wave(s@)[k],
        decreases len - i,
    {
        let next: i32 = if i + 1 < len {
            s[i + 1]
        } else {
            s[i]
        };
        proof {
            lemma_twice_integral_bound(s@, i as int);
            lemma_twice_integral_bound(s@, i + 1);
            lemma_integral_fits(twice_integral(s@, i + 1), i + 1, len as int);
        }
        total = total + s[i] as i128 + next as i128;
        integral.push((total / (2 * len as i128)) as i32);
        i = i + 1;
    }
    assert(integral@ =~= integral_wave(s@));
    let integral_rms: u32 = calculate_rms(integral.as_slice(), len, frequency_zc, adc_samples_second);
    if wave_rms == 0 || integral_rms == 0 {
        assert(integral@ =~= integrated_wave(s@, frequency_zc as int, adc_samples_second as int));
        return integral;
    }
    let mut res_signal: Vec<i32> = Vec::new();
    let mut k: usize = 0;
    while k < len
        invariant
            k <= len,
            len == integral@.len(),
            wave_rms != 0,
            integral_rms != 0,
            res_signal@.len() == k,
            forall|j: int|
                0 <= j < k ==> #[trigger] res_signal@[j] == renormalized(
                    integral@[j],
                    wave_rms as int,
                    integral_rms as int,
                ),
        decreases len - k,
    {
        let value: i32 = integral[k];
        assert(-(0x8000_0000 * 0xffff_ffff) <= value * wave_rms <= 0x8000_0000 * 0xffff_ffff)
            by (nonlinear_arith)
            requires
                -0x8000_0000 <= value <= 0x7fff_ffff,
                0 <= wave_rms <= 0xffff_ffff,
        ;
        let scaled: i64 = (value as i64 * wave_rms as i64) / (integral_rms as i64);
        let limited: i32 = if scaled < i32::MIN as i64 {
            i32::MIN
        } else if scaled > i32::MAX as i64 {
            i32::MAX
        } else {
            scaled as i32
        };
        res_signal.push(limited);
        k = k + 1;
    }
    assert(res_signal@ =~= integrated_wave(s@, frequency_zc as int, adc_samples_second as int));
    res_signal
}

} // verus!
