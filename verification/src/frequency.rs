//! Line frequency from the rising zero crossings of a wave, the nominal grid
//! frequency that belongs to it, and the whole cycles that fit a buffer.

use vstd::prelude::*;
use crate::arith::div_nearest;
use crate::types::{
    ADC_SAMPLES_50HZ_CYCLE,
    ADC_SAMPLES_60HZ_CYCLE,
    FREQ_NOMINAL_50,
    FREQ_NOMINAL_60,
};

verus! {

/// Largest number of zero crossings that one estimate uses.
pub const ZERO_CROSSING_MAX_POINTS: usize = 3;

/// Sample pairs, the crossing pair included, during which a registered
/// crossing keeps further crossings from being registered.
pub const FREQ_ZC_DEBOUNCE: u32 = 2;

/// The wave rises through zero between the samples `p` and `p + 1`.
pub open spec fn rising_at(s: Seq<i32>, p: int) -> bool {
    s[p] < 0 && s[p + 1] >= 0
}

/// The scan over the first `pairs` pairs of adjacent samples: the indices of
/// the registered crossings, and the debounce count that is left. A crossing
/// is registered at a pair where the wave rises through zero while the
/// debounce count is zero.
pub open spec fn scan(s: Seq<i32>, pairs: int) -> (Seq<int>, int)
    decreases pairs,
{
    if pairs <= 0 {
        (Seq::<int>::empty(), 0)
    } else {
        let (found, debounce) = scan(s, pairs - 1);
        if debounce == 0 && rising_at(s, pairs - 1) {
            (found.push(pairs - 1), FREQ_ZC_DEBOUNCE - 1)
        } else if debounce > 0 {
            (found, debounce - 1)
        } else {
            (found, 0)
        }
    }
}

/// The crossings that an estimate uses: those of the whole wave, cut off at
/// the largest number allowed.
pub open spec fn crossings(s: Seq<i32>) -> Seq<int> {
    let all = scan(s, s.len() - 1).0;
    if all.len() > ZERO_CROSSING_MAX_POINTS {
        all.take(ZERO_CROSSING_MAX_POINTS as int)
    } else {
        all
    }
}

/// Numerator of the fraction of a sample by which the zero lies behind the
/// sample `p`, by linear interpolation.
pub open spec fn crossing_num(s: Seq<i32>, p: int) -> int {
    -(s[p] as int)
}

/// Denominator of that fraction.
pub open spec fn crossing_den(s: Seq<i32>, p: int) -> int {
    s[p + 1] - s[p]
}

/// The distance in samples from the interpolated zero at the pair `first` to
/// the one at the pair `last`, as a multiple of
/// `1 / (crossing_den(s, first) * crossing_den(s, last))`.
pub open spec fn span_num(s: Seq<i32>, first: int, last: int) -> int {
    (last - first) * crossing_den(s, first) * crossing_den(s, last) + crossing_num(s, last)
        * crossing_den(s, first) - crossing_num(s, first) * crossing_den(s, last)
}

/// The frequency in millihertz of a wave sampled at `adc_samples_second`
/// millihertz: the sampling rate divided by the mean distance between
/// consecutive crossings, rounded down; `None` with fewer than two crossings.
/// The mean distance is the distance from the first to the last crossing
/// divided by the number of gaps between them.
pub open spec fn zero_crossing_frequency(s: Seq<i32>, adc_samples_second: int) -> Option<int> {
    let used = crossings(s);
    if used.len() < 2 {
        None
    } else {
        let first = used[0];
        let last = used[used.len() - 1];
        Some(
            (adc_samples_second * (used.len() - 1) * crossing_den(s, first) * crossing_den(s, last))
                / span_num(s, first, last),
        )
    }
}

/// Every registered crossing is a rising crossing inside the scanned pairs,
/// and consecutive ones lie at least the debounce count apart.
pub proof fn lemma_scan(s: Seq<i32>, pairs: int)
    requires
        0 <= pairs,
    ensures
        0 <= scan(s, pairs).1 < FREQ_ZC_DEBOUNCE,
        forall|i: int|
            0 <= i < scan(s, pairs).0.len() ==> 0 <= #[trigger] scan(s, pairs).0[i] < pairs
                && rising_at(s, scan(s, pairs).0[i]),
        forall|i: int|
            0 <= i && i + 1 < scan(s, pairs).0.len() ==> #[trigger] scan(s, pairs).0[i]
                + FREQ_ZC_DEBOUNCE <= scan(s, pairs).0[i + 1],
        scan(s, pairs).0.len() > 0 ==> scan(s, pairs).0.last() + FREQ_ZC_DEBOUNCE <= pairs + scan(
            s,
            pairs,
        ).1,
        scan(s, pairs).0.len() <= pairs,
    decreases pairs,
{
    if pairs > 0 {
        lemma_scan(s, pairs - 1);
        let before = scan(s, pairs - 1);
        let after = scan(s, pairs);
        if before.1 == 0 && rising_at(s, pairs - 1) {
            assert(after.0 == before.0.push(pairs - 1));
            assert forall|i: int| 0 <= i && i + 1 < after.0.len() implies #[trigger] after.0[i]
                + FREQ_ZC_DEBOUNCE <= after.0[i + 1] by {
                if i + 1 < before.0.len() {
                    assert(before.0[i] + FREQ_ZC_DEBOUNCE <= before.0[i + 1]);
                } else {
                    assert(after.0[i] == before.0.last());
                }
            }
        } else {
            assert(after.0 == before.0);
        }
    }
}

/// A wave that never rises through zero, such as a flat one, has no
/// crossings and so no frequency.
pub proof fn lemma_no_rise_no_frequency(s: Seq<i32>, adc_samples_second: int)
    requires
        forall|p: int| 0 <= p < s.len() - 1 ==> !#[trigger] rising_at(s, p),
    ensures
        crossings(s).len() == 0,
        zero_crossing_frequency(s, adc_samples_second).is_none(),
{
    if s.len() >= 1 {
        lemma_scan_without_rise(s, s.len() - 1);
    }
}

proof fn lemma_scan_without_rise(s: Seq<i32>, pairs: int)
    requires
        0 <= pairs <= s.len() - 1,
        forall|p: int| 0 <= p < s.len() - 1 ==> !#[trigger] rising_at(s, p),
    ensures
        scan(s, pairs).0.len() == 0,
        scan(s, pairs).1 == 0,
    decreases pairs,
{
    if pairs > 0 {
        lemma_scan_without_rise(s, pairs - 1);
        assert(!rising_at(s, pairs - 1));
    }
}

/// The distance between two crossings that lie `gaps` debounced gaps apart is
/// at least `gaps` samples, so the frequency stays below the sampling rate.
proof fn lemma_span(pf: int, pl: int, af: int, bf: int, al: int, bl: int, gaps: int)
    requires
        1 <= gaps,
        pf + 2 * gaps <= pl,
        1 <= af <= bf,
        1 <= al <= bl,
    ensures
        (pl - pf) * bf * bl + al * bf - af * bl >= gaps * (bf * bl),
        (pl - pf) * bf * bl + al * bf - af * bl >= (pl - pf - 1) * (bf * bl),
        bf * bl >= 1,
{
    let unit: int = bf * bl;
    assert(unit >= 1) by (nonlinear_arith)
        requires
            bf >= 1,
            bl >= 1,
            unit == bf * bl,
    ;
    assert((pl - pf) * bf * bl == (pl - pf) * unit) by (nonlinear_arith)
        requires
            unit == bf * bl,
    ;
    assert(af * bl <= unit) by (nonlinear_arith)
        requires
            1 <= af <= bf,
            1 <= bl,
            unit == bf * bl,
    ;
    assert(al * bf >= 0) by (nonlinear_arith)
        requires
            1 <= al,
            1 <= bf,
    ;
    assert((pl - pf) * unit - unit == (pl - pf - 1) * unit) by (nonlinear_arith);
    assert((pl - pf - 1) * unit >= gaps * unit) by (nonlinear_arith)
        requires
            pl - pf - 1 >= gaps,
            unit >= 1,
    ;
}

/// Estimates the frequency of a wave from its rising zero crossings. The
/// position of each crossing is interpolated between the two samples around
/// it; after a crossing the next pair of samples is skipped, and at most
/// `ZERO_CROSSING_MAX_POINTS` crossings are used. The result is in
/// millihertz, as is the sampling rate, and `None` when the wave has fewer
/// than two crossings.
pub fn calculate_zero_crossing_frequency(signal: &[i32], adc_samples_second: u32) -> (frequency:
    Option<u32>)
    ensures
        frequency.is_some() == zero_crossing_frequency(
            signal@,
            adc_samples_second as int,
        ).is_some(),
        frequency.is_some() ==> frequency.unwrap() == zero_crossing_frequency(
            signal@,
            adc_samples_second as int,
        ).unwrap(),
        frequency.is_some() ==> frequency.unwrap() <= adc_samples_second,
{
    let num_samples: usize = signal.len();
    if num_samples < 2 {
        assert(scan(signal@, num_samples - 1).0.len() == 0) by {
            reveal_with_fuel(scan, 2);
        }
        return None;
    }
    let mut found: Vec<usize> = Vec::new();
    let ghost mut all: Seq<int> = Seq::<int>::empty();
    let mut debounce: u32 = 0;
    let mut p: usize = 0;
    while p < num_samples - 1
        invariant
            num_samples == signal@.len(),
            num_samples >= 2,
            p <= num_samples - 1,
            (all, debounce as int) == scan(signal@, p as int),
            found@.len() <= ZERO_CROSSING_MAX_POINTS,
            found@.len() == if all.len() > ZERO_CROSSING_MAX_POINTS {
                ZERO_CROSSING_MAX_POINTS as int
            } else {
                all.len() as int
            },
            forall|i: int| 0 <= i < found@.len() ==> #[trigger] found@[i] == all[i],
        decreases num_samples - 1 - p,
    {
        proof {
            lemma_scan(signal@, p as int);
        }
        if debounce == 0 && signal[p] < 0 && signal[p + 1] >= 0 {
            if found.len() < ZERO_CROSSING_MAX_POINTS {
                found.push(p);
            }
            proof {
                all = all.push(p as int);
            }
            debounce = FREQ_ZC_DEBOUNCE - 1;
        } else if debounce > 0 {
            debounce = debounce - 1;
        }
        p = p + 1;
    }
    let count: usize = found.len();
    proof {
        lemma_scan(signal@, num_samples - 1);
        assert(crossings(signal@).len() == count);
        assert forall|i: int| 0 <= i < count implies found@[i] == #[trigger] crossings(signal@)[i] by {
            assert(found@[i] == all[i]);
        }
    }
    if count < 2 {
        return None;
    }
    let first: usize = found[0];
    let last: usize = found[count - 1];
    proof {
        assert(first == all[0]);
        assert(last == all[count - 1]);
        assert(rising_at(signal@, all[0]));
        assert(rising_at(signal@, all[count - 1]));
        if count == 2 {
            assert(all[0] + FREQ_ZC_DEBOUNCE <= all[1]);
        } else {
            assert(all[0] + FREQ_ZC_DEBOUNCE <= all[1]);
            assert(all[1] + FREQ_ZC_DEBOUNCE <= all[2]);
        }
    }
    let af: u128 = (-(signal[first] as i64)) as u128;
    let bf: u128 = (signal[first + 1] as i64 - signal[first] as i64) as u128;
    let al: u128 = (-(signal[last] as i64)) as u128;
    let bl: u128 = (signal[last + 1] as i64 - signal[last] as i64) as u128;
    let gaps: u128 = (count - 1) as u128;
    let distance: u128 = (last - first) as u128;
    proof {
        lemma_span(
            first as int,
            last as int,
            af as int,
            bf as int,
            al as int,
            bl as int,
            gaps as int,
        );
        assert(bf * bl <= 0xffff_ffff * 0xffff_ffff) by (nonlinear_arith)
            requires
                0 <= bf <= 0xffff_ffff,
                0 <= bl <= 0xffff_ffff,
        ;
    }
    let unit: u128 = bf * bl;
    assert(adc_samples_second * gaps * bf * bl == (adc_samples_second * gaps) * unit)
        by (nonlinear_arith)
        requires
            unit == bf * bl,
    ;
    assert((adc_samples_second * gaps) * unit <= (0xffff_ffff * 2) * unit) by (nonlinear_arith)
        requires
            0 <= adc_samples_second <= 0xffff_ffff,
            0 <= gaps <= 2,
            0 <= unit,
    ;
    assert(adc_samples_second * gaps <= 0xffff_ffff * 2) by (nonlinear_arith)
        requires
            0 <= adc_samples_second <= 0xffff_ffff,
            0 <= gaps <= 2,
    ;
    assert((0xffff_ffff * 2) * unit <= (0xffff_ffff * 2) * (0xffff_ffff * 0xffff_ffff))
        by (nonlinear_arith)
        requires
            0 <= unit <= 0xffff_ffff * 0xffff_ffff,
    ;
    let rate: u128 = adc_samples_second as u128 * gaps;
    let numerator: u128 = rate * unit;
    if distance > 0x2_0000_0000 {
        proof {
            let span: int = span_num(signal@, first as int, last as int);
            assert(span >= (distance - 1) * unit);
            assert((distance - 1) * unit > numerator) by (nonlinear_arith)
                requires
                    distance - 1 >= 0x2_0000_0000,
                    numerator == rate * unit,
                    0 <= rate <= 0x1_ffff_fffe,
                    unit >= 1,
            ;
            assert(numerator as int / span == 0) by (nonlinear_arith)
                requires
                    0 <= numerator < span,
            ;
        }
        return Some(0);
    }
    assert(distance * bf * bl == distance * unit) by (nonlinear_arith)
        requires
            unit == bf * bl,
    ;
    assert(distance * unit <= 0x2_0000_0000 * unit) by (nonlinear_arith)
        requires
            0 <= distance <= 0x2_0000_0000,
            0 <= unit,
    ;
    assert(al * bf <= 0xffff_ffff * 0xffff_ffff) by (nonlinear_arith)
        requires
            0 <= al <= 0xffff_ffff,
            0 <= bf <= 0xffff_ffff,
    ;
    assert(af * bl <= unit) by (nonlinear_arith)
        requires
            0 <= af <= bf,
            0 <= bl,
            unit == bf * bl,
    ;
    let span: u128 = distance * unit + al * bf - af * bl;
    let quotient: u128 = numerator / span;
    proof {
        assert(span == span_num(signal@, first as int, last as int));
        assert(span >= gaps * unit);
        assert(numerator <= adc_samples_second * span) by (nonlinear_arith)
            requires
                numerator == (adc_samples_second * gaps) * unit,
                span >= gaps * unit,
                0 <= adc_samples_second,
        ;
        assert(numerator as int / span as int <= adc_samples_second) by (nonlinear_arith)
            requires
                0 <= numerator <= adc_samples_second * span,
                span > 0,
        ;
    }
    Some(quotient as u32)
}

/// A frequency lies within the tolerance of a nominal frequency when it is
/// more than 95 % and less than 107 % of it.
pub open spec fn frequency_in_tolerance(freq: int, nominal: int) -> bool {
    100 * freq < 107 * nominal && 100 * freq > 95 * nominal
}

/// Tells whether `freq` lies within the tolerance of `nominal`.
pub fn is_frequency_in_tolerance(freq: u32, nominal: u32) -> (within: bool)
    ensures
        within == frequency_in_tolerance(freq as int, nominal as int),
{
    100 * (freq as u64) < 107 * (nominal as u64) && 100 * (freq as u64) > 95 * (nominal as u64)
}

/// The nominal grid frequency of a measured frequency: 60 Hz within the
/// tolerance of 60 Hz, else 50 Hz.
pub open spec fn nominal_frequency(freq_zc: int) -> int {
    if frequency_in_tolerance(freq_zc, FREQ_NOMINAL_60 as int) {
        FREQ_NOMINAL_60 as int
    } else {
        FREQ_NOMINAL_50 as int
    }
}

/// The number of samples to process. It changes only when the nominal
/// frequency changes from the one that was in force before: to the samples
/// of a 60 Hz acquisition when the grid turns to 60 Hz, to those of a 50 Hz
/// acquisition when it turns to 50 Hz. Otherwise it stays as it is.
pub open spec fn nominal_length(freq_zc: int, length: int, nominal_freq: int) -> int {
    if nominal_frequency(freq_zc) == nominal_freq {
        length
    } else if nominal_frequency(freq_zc) == FREQ_NOMINAL_60 {
        ADC_SAMPLES_60HZ_CYCLE as int
    } else {
        ADC_SAMPLES_50HZ_CYCLE as int
    }
}

/// Maps a measured frequency to the nominal grid frequency, and adapts the
/// number of samples to process when the nominal frequency has changed.
/// `nominal_freq` is the nominal frequency that was in force before.
pub fn calculate_nominal_frequency(freq_zc: u32, length: &mut usize, nominal_freq: u32) -> (freq_nominal:
    u32)
    ensures
        freq_nominal == nominal_frequency(freq_zc as int),
        *final(length) == nominal_length(freq_zc as int, *old(length) as int, nominal_freq as int),
        freq_nominal == nominal_freq ==> *final(length) == *old(length),
{
    let freq_nominal: u32 = if is_frequency_in_tolerance(freq_zc, FREQ_NOMINAL_60) {
        FREQ_NOMINAL_60
    } else {
        FREQ_NOMINAL_50
    };
    if freq_nominal != nominal_freq {
        if freq_nominal == FREQ_NOMINAL_60 {
            *length = ADC_SAMPLES_60HZ_CYCLE;
        } else {
            *length = ADC_SAMPLES_50HZ_CYCLE;
        }
    }
    freq_nominal
}

/// Samples in one cycle of `frequency` at the sampling rate
/// `adc_samples_second`, rounded to the nearest integer.
pub open spec fn samples_per_cycle(adc_samples_second: int, frequency: int) -> int {
    div_nearest(adc_samples_second, frequency)
}

/// The largest whole number of cycles that fits `length` samples, in samples.
pub open spec fn whole_cycles(length: int, adc_samples_second: int, frequency: int) -> int {
    (length / samples_per_cycle(adc_samples_second, frequency)) * samples_per_cycle(
        adc_samples_second,
        frequency,
    )
}

/// Cuts a number of samples down to a whole number of cycles of `frequency`.
/// The frequency must not be zero, and a cycle must span at least half a
/// sample, so that its rounded length is not zero.
pub fn limit_length_to_cycles(length: usize, frequency: u32, adc_samples_second: u32) -> (length_cycle:
    usize)
    requires
        0 < frequency <= 2 * adc_samples_second,
    ensures
        length_cycle == whole_cycles(length as int, adc_samples_second as int, frequency as int),
        length_cycle <= length,
        (length_cycle as int) % samples_per_cycle(adc_samples_second as int, frequency as int)
            == 0,
        length - length_cycle < samples_per_cycle(adc_samples_second as int, frequency as int),
{
    let one_cycle: u64 = (2 * (adc_samples_second as u64) + frequency as u64) / (2 * (
    frequency as u64));
    assert(one_cycle >= 1) by (nonlinear_arith)
        requires
            one_cycle == (2 * adc_samples_second + frequency) / (2 * frequency),
            0 < frequency <= 2 * adc_samples_second,
    ;
    let cycles: u64 = length as u64 / one_cycle;
    proof {
        vstd::arithmetic::div_mod::lemma_fundamental_div_mod(length as int, one_cycle as int);
        vstd::arithmetic::div_mod::lemma_mod_multiples_basic(cycles as int, one_cycle as int);
        assert(one_cycle * cycles == cycles * one_cycle) by (nonlinear_arith);
        assert(0 <= (length as int) % (one_cycle as int) < one_cycle);
    }
    (cycles * one_cycle) as usize
}

} // verus!
