//! Conditioning of one raw waveform: pre-filter, validity check, removal of
//! the offset and conversion to physical units.

use vstd::prelude::*;
use vstd::slice::slice_to_vec;
use crate::arith::{clamp, div_toward_zero};
use crate::types::{MetrologyInsightSignal, MetrologyInsightSignalType, FACTOR_ONE};

verus! {

/// The sum of the samples `s[lo..hi]`.
pub open spec fn sum_range(s: Seq<i32>, lo: int, hi: int) -> int
    decreases hi - lo,
{
    if lo >= hi {
        0
    } else {
        sum_range(s, lo, hi - 1) + s[hi - 1]
    }
}

/// First index of the trailing window that ends at `i`: the window reaches
/// `window` samples back and is cut off at the start of the buffer.
pub open spec fn window_start(i: int, window: int) -> int {
    if i >= window {
        i - window
    } else {
        0
    }
}

/// The average of the trailing window that ends at `i`, rounded toward zero.
pub open spec fn moving_average_at(s: Seq<i32>, window: int, i: int) -> int {
    div_toward_zero(
        sum_range(s, window_start(i, window), i + 1),
        i + 1 - window_start(i, window),
    )
}

/// The largest of the first `n` samples of `s`, for `n` of at least one.
pub open spec fn max_upto(s: Seq<i32>, n: int) -> int
    decreases n,
{
    if n <= 1 {
        s[0] as int
    } else if s[n - 1] > max_upto(s, n - 1) {
        s[n - 1] as int
    } else {
        max_upto(s, n - 1)
    }
}

/// The smallest of the first `n` samples of `s`, for `n` of at least one.
pub open spec fn min_upto(s: Seq<i32>, n: int) -> int
    decreases n,
{
    if n <= 1 {
        s[0] as int
    } else if s[n - 1] < min_upto(s, n - 1) {
        s[n - 1] as int
    } else {
        min_upto(s, n - 1)
    }
}

/// The largest sample of a wave that is not empty.
pub open spec fn wave_max(s: Seq<i32>) -> int {
    max_upto(s, s.len() as int)
}

/// The smallest sample of a wave that is not empty.
pub open spec fn wave_min(s: Seq<i32>) -> int {
    min_upto(s, s.len() as int)
}

/// The midpoint between the extremes of a wave, rounded toward zero.
pub open spec fn wave_midpoint(s: Seq<i32>) -> int {
    div_toward_zero(wave_max(s) + wave_min(s), 2)
}

/// A wave is usable when it has two samples or more and its peak-to-peak
/// amplitude reaches the minimum of its kind.
pub open spec fn signal_valid(s: Seq<i32>, kind: MetrologyInsightSignalType) -> bool {
    s.len() >= 2 && wave_max(s) - wave_min(s) >= kind.spec_min_amplitude()
}

/// One raw sample in physical units: multiplied by the calibration factor
/// and, on a current channel, by the sensor ratio; each product is rounded
/// toward zero, and the result is limited to the range of a sample.
pub open spec fn physical_sample(
    raw: i32,
    adc_factor: u32,
    adc_scale: u32,
    kind: MetrologyInsightSignalType,
) -> int {
    let scaled = div_toward_zero(raw * adc_factor, FACTOR_ONE as int);
    let value = match kind {
        MetrologyInsightSignalType::Voltage => scaled,
        MetrologyInsightSignalType::Current => div_toward_zero(
            scaled * adc_scale,
            FACTOR_ONE as int,
        ),
    };
    clamp(value, i32::MIN as int, i32::MAX as int)
}

/// The sum of a range lies between the range's length times the smallest and
/// the largest value of a sample.
pub proof fn lemma_sum_range_bounds(s: Seq<i32>, lo: int, hi: int)
    requires
        0 <= lo <= hi <= s.len(),
    ensures
        (hi - lo) * i32::MIN <= sum_range(s, lo, hi) <= (hi - lo) * i32::MAX,
    decreases hi - lo,
{
    if lo < hi {
        lemma_sum_range_bounds(s, lo, hi - 1);
    }
}

/// The extremes of a prefix bound each of its samples and are among them.
pub proof fn lemma_extremes(s: Seq<i32>, n: int)
    requires
        1 <= n <= s.len(),
    ensures
        forall|i: int| 0 <= i < n ==> min_upto(s, n) <= #[trigger] s[i] <= max_upto(s, n),
        exists|i: int| 0 <= i < n && s[i] == max_upto(s, n),
        exists|i: int| 0 <= i < n && s[i] == min_upto(s, n),
        i32::MIN <= min_upto(s, n) <= max_upto(s, n) <= i32::MAX,
    decreases n,
{
    if n > 1 {
        lemma_extremes(s, n - 1);
        let i: int = choose|i: int| 0 <= i < n - 1 && s[i] == max_upto(s, n - 1);
        let j: int = choose|j: int| 0 <= j < n - 1 && s[j] == min_upto(s, n - 1);
        if s[n - 1] > max_upto(s, n - 1) {
            assert(s[n - 1] == max_upto(s, n));
        } else {
            assert(s[i] == max_upto(s, n));
        }
        if s[n - 1] < min_upto(s, n - 1) {
            assert(s[n - 1] == min_upto(s, n));
        } else {
            assert(s[j] == min_upto(s, n));
        }
    } else {
        assert(s[0] == max_upto(s, n));
        assert(s[0] == min_upto(s, n));
    }
}

/// Replaces each sample by the average of the trailing window that ends at
/// it. The window reaches `window_size` samples back, so it holds
/// `window_size + 1` samples, fewer near the start of the buffer. Averages
/// are rounded toward zero.
pub fn moving_average(signal: &mut [i32], window_size: usize)
    ensures
        final(signal)@.len() == old(signal)@.len(),
        forall|i: int|
            0 <= i < old(signal)@.len() ==> #[trigger] final(signal)@[i] == moving_average_at(
                old(signal)@,
                window_size as int,
                i,
            ),
{
    let len: usize = signal.len();
    let source: Vec<i32> = slice_to_vec(signal);
    let mut i: usize = 0;
    while i < len
        invariant
            i <= len,
            len == source@.len(),
            signal@.len() == len,
            source@ == old(signal)@,
            forall|k: int|
                0 <= k < i ==> #[trigger] signal@[k] == moving_average_at(
                    source@,
                    window_size as int,
                    k,
                ),
        decreases len - i,
    {
        let start: usize = if i >= window_size {
            i - window_size
        } else {
            0
        };
        let mut sum: i128 = 0;
        let mut j: usize = start;
        while j <= i
            invariant
                start <= j <= i + 1,
                i < len,
                len == source@.len(),
                sum == sum_range(source@, start as int, j as int),
            decreases i + 1 - j,
        {
            proof {
                lemma_sum_range_bounds(source@, start as int, j as int);
            }
            sum = sum + source[j] as i128;
            j = j + 1;
        }
        let count: i128 = (i - start + 1) as i128;
        let average: i128 = sum / count;
        proof {
            lemma_sum_range_bounds(source@, start as int, i + 1);
            lemma_average_in_range(sum as int, count as int);
        }
        signal[i] = average as i32;
        i = i + 1;
    }
}

proof fn lemma_average_in_range(sum: int, count: int)
    requires
        count > 0,
        count * i32::MIN <= sum <= count * i32::MAX,
    ensures
        i32::MIN <= div_toward_zero(sum, count) <= i32::MAX,
{
    let lo: int = i32::MIN as int;
    let hi: int = i32::MAX as int;
    if sum >= 0 {
        assert(sum / count <= hi) by (nonlinear_arith)
            requires
                count > 0,
                0 <= sum <= count * hi,
        ;
        assert(sum / count >= 0) by (nonlinear_arith)
            requires
                count > 0,
                0 <= sum,
        ;
    } else {
        assert((-sum) / count <= -lo) by (nonlinear_arith)
            requires
                count > 0,
                0 <= -sum <= count * (-lo),
        ;
        assert((-sum) / count >= 0) by (nonlinear_arith)
            requires
                count > 0,
                0 <= -sum,
        ;
    }
}

/// Finds the smallest and the largest sample of a wave that is not empty.
pub fn extremes(signal: &[i32]) -> (r: (i32, i32))
    requires
        signal@.len() > 0,
    ensures
        r.0 == wave_min(signal@),
        r.1 == wave_max(signal@),
{
    let mut lowest: i32 = signal[0];
    let mut highest: i32 = signal[0];
    let mut i: usize = 1;
    while i < signal.len()
        invariant
            1 <= i <= signal@.len(),
            lowest == min_upto(signal@, i as int),
            highest == max_upto(signal@, i as int),
        decreases signal@.len() - i,
    {
        if signal[i] < lowest {
            lowest = signal[i];
        }
        if signal[i] > highest {
            highest = signal[i];
        }
        i = i + 1;
    }
    (lowest, highest)
}

/// Tells whether a raw wave can be measured: it needs two samples or more and
/// a peak-to-peak amplitude of at least the minimum of its kind.
pub fn is_signal_valid(signal: &[i32], signal_type: MetrologyInsightSignalType) -> (valid: bool)
    ensures
        valid == signal_valid(signal@, signal_type),
{
    if signal.len() < 2 {
        return false;
    }
    let (lowest, highest) = extremes(signal);
    proof {
        lemma_extremes(signal@, signal@.len() as int);
    }
    let amplitude: i64 = highest as i64 - lowest as i64;
    amplitude >= signal_type.min_amplitude() as i64
}

/// The offset of a raw wave that is not empty: the midpoint between its
/// largest and its smallest sample, rounded toward zero.
pub fn signal_offset(signal: &[i32]) -> (offset: i32)
    requires
        signal@.len() > 0,
    ensures
        offset == wave_midpoint(signal@),
{
    let (lowest, highest) = extremes(signal);
    proof {
        lemma_extremes(signal@, signal@.len() as int);
    }
    ((highest as i64 + lowest as i64) / 2) as i32
}

/// Removes the offset of a raw wave: the midpoint between its largest and its
/// smallest sample, rounded toward zero, is subtracted from every sample. An
/// empty wave is left as it is.
pub fn remove_signal_offset(signal: &mut [i32])
    ensures
        final(signal)@.len() == old(signal)@.len(),
        forall|i: int|
            0 <= i < old(signal)@.len() ==> #[trigger] final(signal)@[i] == old(signal)@[i]
                - wave_midpoint(old(signal)@),
{
    let len: usize = signal.len();
    if len == 0 {
        return ;
    }
    let (lowest, highest) = extremes(signal);
    let offset: i64 = (highest as i64 + lowest as i64) / 2;
    proof {
        lemma_extremes(signal@, len as int);
    }
    let mut i: usize = 0;
    while i < len
        invariant
            i <= len,
            signal@.len() == len,
            len == old(signal)@.len(),
            offset == wave_midpoint(old(signal)@),
            lowest == wave_min(old(signal)@),
            highest == wave_max(old(signal)@),
            offset == div_toward_zero(highest + lowest, 2),
            forall|k: int| 0 <= k < len ==> lowest <= #[trigger] old(signal)@[k] <= highest,
            forall|k: int| 0 <= k < i ==> #[trigger] signal@[k] == old(signal)@[k] - offset,
            forall|k: int| i <= k < len ==> #[trigger] signal@[k] == old(signal)@[k],
        decreases len - i,
    {
        let shifted: i64 = signal[i] as i64 - offset;
        signal[i] = shifted as i32;
        i = i + 1;
    }
}

/// Converts one raw sample to physical units.
fn convert_sample(raw: i32, adc_factor: u32, adc_scale: u32, kind: MetrologyInsightSignalType) -> (v:
    i32)
    ensures
        v == physical_sample(raw, adc_factor, adc_scale, kind),
{
    assert(-0x8000_0000 * 0xffff_ffff <= raw * adc_factor <= 0x8000_0000 * 0xffff_ffff)
        by (nonlinear_arith)
        requires
            -0x8000_0000 <= raw <= 0x7fff_ffff,
            0 <= adc_factor <= 0xffff_ffff,
    ;
    let scaled: i64 = (raw as i64 * adc_factor as i64) / (FACTOR_ONE as i64);
    let value: i128 = match kind {
        MetrologyInsightSignalType::Voltage => scaled as i128,
        MetrologyInsightSignalType::Current => {
            assert(-0x8000_0000_0000_0000 * 0xffff_ffff <= scaled * adc_scale
                <= 0x8000_0000_0000_0000 * 0xffff_ffff) by (nonlinear_arith)
                requires
                    -0x8000_0000_0000_0000 <= scaled <= 0x7fff_ffff_ffff_ffff,
                    0 <= adc_scale <= 0xffff_ffff,
            ;
            (scaled as i128 * adc_scale as i128) / (FACTOR_ONE as i128)
        },
    };
    if value < i32::MIN as i128 {
        i32::MIN
    } else if value > i32::MAX as i128 {
        i32::MAX
    } else {
        value as i32
    }
}

/// Converts the raw wave of a signal to physical units: every sample is
/// multiplied by the calibration factor and, on a current channel, by the
/// sensor ratio as well.
pub fn convert_raw_to_physical(signal: &MetrologyInsightSignal) -> (physical: Vec<i32>)
    ensures
        physical@.len() == signal.wave@.len(),
        forall|i: int|
            0 <= i < signal.wave@.len() ==> #[trigger] physical@[i] == physical_sample(
                signal.wave@[i],
                signal.adc_factor,
                signal.adc_scale,
                signal.signal_type,
            ),
{
    let mut physical: Vec<i32> = Vec::new();
    let mut i: usize = 0;
    while i < signal.wave.len()
        invariant
            i <= signal.wave@.len(),
            physical@.len() == i,
            forall|k: int|
                0 <= k < i ==> #[trigger] physical@[k] == physical_sample(
                    signal.wave@[k],
                    signal.adc_factor,
                    signal.adc_scale,
                    signal.signal_type,
                ),
        decreases signal.wave@.len() - i,
    {
        physical.push(
            convert_sample(signal.wave[i], signal.adc_factor, signal.adc_scale, signal.signal_type),
        );
        i = i + 1;
    }
    physical
}

} // verus!
