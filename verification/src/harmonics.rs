//! Harmonic content of a wave from the magnitudes of its spectrum: the odd
//! harmonics relative to the fundamental and the total harmonic distortion,
//! both in parts per million, and the resampling that prepares a wave for the
//! transform. The transform itself is done by the caller.

use vstd::prelude::*;
use crate::arith::{
    div_nearest,
    div_toward_zero,
    floor_sqrt,
    integer_sqrt,
    lemma_fraction_within,
    RATIO_ONE,
};
use crate::power::{frequency_from_state, frequency_of_state};
use crate::smoothing::{smoothed, update_average};
use crate::types::{
    MetrologyInsightSignal,
    MetrologyInsightSignalType,
    MetrologyInsightSocket,
    NUMBER_HARMONICS,
};

verus! {

/// Number of samples that a wave is resampled to before the transform.
pub const FFT_RESOLUTION: usize = 128;

/// The sample `i` of a wave resampled to `new_len` samples: the wave at the
/// position `i * len / new_len`, interpolated linearly between the sample
/// below the position and the one after it, which is the first sample again
/// at the end of the wave. The step is rounded toward zero.
pub open spec fn resampled_sample(s: Seq<i32>, new_len: int, i: int) -> int {
    let position = i * s.len();
    let below = position / new_len;
    let above = (below + 1) % (s.len() as int);
    let fraction = position % new_len;
    s[below] + div_toward_zero((s[above] - s[below]) * fraction, new_len)
}

/// The bin of the spectrum of `samples` samples, taken at the sampling rate
/// `adc_samples_second`, that holds the frequency `freq`: the frequency
/// divided by the width of a bin, rounded to the nearest integer.
pub open spec fn fundamental_bin_of(freq: int, samples: int, adc_samples_second: int) -> int {
    div_nearest(freq * samples, adc_samples_second)
}

/// The bin of the odd harmonic number `k`, of order `2 * k + 1`.
pub open spec fn harmonic_bin(k: int, fundamental_bin: int) -> int {
    (2 * k + 1) * fundamental_bin
}

/// The magnitude of the odd harmonic number `k`, zero beyond the spectrum.
pub open spec fn harmonic_magnitude(magnitudes: Seq<u32>, fundamental_bin: int, k: int) -> int {
    if harmonic_bin(k, fundamental_bin) < magnitudes.len() {
        magnitudes[harmonic_bin(k, fundamental_bin)] as int
    } else {
        0
    }
}

/// The odd harmonic number `k` relative to the fundamental, in parts per
/// million, rounded down.
pub open spec fn harmonic_ratio(
    magnitudes: Seq<u32>,
    fundamental_mag: int,
    fundamental_bin: int,
    k: int,
) -> int {
    (harmonic_magnitude(magnitudes, fundamental_bin, k) * RATIO_ONE) / fundamental_mag
}

/// The sum of the squared magnitudes of the odd harmonics number 1 up to, and
/// without, `k`: the fundamental, number 0, is left out.
pub open spec fn harmonic_power_sum(magnitudes: Seq<u32>, fundamental_bin: int, k: int) -> int
    decreases k,
{
    if k <= 1 {
        0
    } else {
        harmonic_power_sum(magnitudes, fundamental_bin, k - 1) + harmonic_magnitude(
            magnitudes,
            fundamental_bin,
            k - 1,
        ) * harmonic_magnitude(magnitudes, fundamental_bin, k - 1)
    }
}

/// Total harmonic distortion as a ratio in parts per million: the root of the
/// summed squares of the harmonics by the magnitude of the fundamental,
/// rounded down.
pub open spec fn distortion(magnitudes: Seq<u32>, fundamental_mag: int, fundamental_bin: int) -> int {
    floor_sqrt(
        harmonic_power_sum(magnitudes, fundamental_bin, NUMBER_HARMONICS as int) * RATIO_ONE
            * RATIO_ONE,
    ) / fundamental_mag
}

/// Harmonics can be had from a spectrum when the sampling rate is not zero
/// and the bin of the fundamental lies in the spectrum and is not empty.
pub open spec fn harmonics_available(
    magnitudes: Seq<u32>,
    samples: int,
    freq: int,
    adc_samples_second: int,
) -> bool {
    &&& adc_samples_second > 0
    &&& fundamental_bin_of(freq, samples, adc_samples_second) < magnitudes.len()
    &&& magnitudes[fundamental_bin_of(freq, samples, adc_samples_second)] > 0
}

/// Resamples a wave to `new_len` samples by linear interpolation over the
/// whole buffer, wrapping around at its end. The wave must not be empty
/// unless no sample is asked for.
pub fn resample_signal(signal: &[i32], new_len: usize) -> (resampled: Vec<i32>)
    requires
        signal@.len() > 0 || new_len == 0,
    ensures
        resampled@.len() == new_len,
        forall|i: int|
            0 <= i < new_len ==> #[trigger] resampled@[i] == resampled_sample(
                signal@,
                new_len as int,
                i,
            ),
{
    let n: usize = signal.len();
    let mut resampled: Vec<i32> = Vec::new();
    let mut i: usize = 0;
    while i < new_len
        invariant
            i <= new_len,
            n == signal@.len(),
            n > 0 || new_len == 0,
            resampled@.len() == i,
            forall|k: int|
                0 <= k < i ==> #[trigger] resampled@[k] == resampled_sample(
                    signal@,
                    new_len as int,
                    k,
                ),
        decreases new_len - i,
    {
        assert(i * n <= 0xffff_ffff_ffff_ffff * 0xffff_ffff_ffff_ffff) by (nonlinear_arith)
            requires
                0 <= i <= 0xffff_ffff_ffff_ffff,
                0 <= n <= 0xffff_ffff_ffff_ffff,
        ;
        let position: u128 = i as u128 * n as u128;
        let below: u128 = position / new_len as u128;
        assert(below < n) by (nonlinear_arith)
            requires
                below == position / (new_len as u128),
                position == i * n,
                0 <= i < new_len,
                0 < n,
        ;
        let fraction: u128 = position % new_len as u128;
        let idx0: usize = below as usize;
        let idx1: usize = if idx0 + 1 == n {
            0
        } else {
            idx0 + 1
        };
        assert(idx1 == (idx0 + 1) % (n as int)) by {
            if idx0 + 1 < n {
                vstd::arithmetic::div_mod::lemma_small_mod((idx0 + 1) as nat, n as nat);
            } else {
                vstd::arithmetic::div_mod::lemma_mod_self_0(n as int);
            }
        }
        let rise: i128 = signal[idx1] as i128 - signal[idx0] as i128;
        assert(-(0xffff_ffff * 0xffff_ffff_ffff_ffff) <= rise * fraction <= 0xffff_ffff
            * 0xffff_ffff_ffff_ffff) by (nonlinear_arith)
            requires
                -0xffff_ffff <= rise <= 0xffff_ffff,
                0 <= fraction <= 0xffff_ffff_ffff_ffff,
        ;
        let step: i128 = (rise * fraction as i128) / (new_len as i128);
        proof {
            lemma_fraction_within(fraction as int, new_len as int, rise as int);
            assert(rise * fraction == fraction * rise) by (nonlinear_arith);
        }
        resampled.push((signal[idx0] as i128 + step) as i32);
        i = i + 1;
    }
    resampled
}

/// The magnitude at the bin of the odd harmonic number `k`.
fn magnitude_of_harmonic(magnitudes: &[u32], fundamental_bin: usize, k: usize) -> (m: u32)
    requires
        k < NUMBER_HARMONICS,
    ensures
        m == harmonic_magnitude(magnitudes@, fundamental_bin as int, k as int),
{
    assert((2 * k + 1) * fundamental_bin <= 41 * 0xffff_ffff_ffff_ffff) by (nonlinear_arith)
        requires
            0 <= k < 21,
            0 <= fundamental_bin <= 0xffff_ffff_ffff_ffff,
    ;
    let bin: u128 = (2 * k as u128 + 1) * fundamental_bin as u128;
    if bin < magnitudes.len() as u128 {
        magnitudes[bin as usize]
    } else {
        0
    }
}

/// The sum of the squares of up to twenty magnitudes fits well into 128
/// bits.
proof fn lemma_harmonic_power_sum_bound(magnitudes: Seq<u32>, fundamental_bin: int, k: int)
    requires
        0 <= k,
    ensures
        0 <= harmonic_power_sum(magnitudes, fundamental_bin, k) <= k * 0xffff_fffe_0000_0001,
    decreases k,
{
    if k > 1 {
        lemma_harmonic_power_sum_bound(magnitudes, fundamental_bin, k - 1);
        let m: int = harmonic_magnitude(magnitudes, fundamental_bin, k - 1);
        assert(0 <= m * m <= 0xffff_fffe_0000_0001) by (nonlinear_arith)
            requires
                0 <= m <= 0xffff_ffff,
        ;
    }
}

/// A spectrum that is empty at the bins of all harmonics but the fundamental
/// has harmonics of zero and no distortion.
pub proof fn lemma_fundamental_alone(
    magnitudes: Seq<u32>,
    fundamental_mag: int,
    fundamental_bin: int,
)
    requires
        fundamental_mag > 0,
        forall|k: int|
            1 <= k < NUMBER_HARMONICS ==> #[trigger] harmonic_magnitude(
                magnitudes,
                fundamental_bin,
                k,
            ) == 0,
    ensures
        forall|k: int|
            1 <= k < NUMBER_HARMONICS ==> #[trigger] harmonic_ratio(
                magnitudes,
                fundamental_mag,
                fundamental_bin,
                k,
            ) == 0,
        distortion(magnitudes, fundamental_mag, fundamental_bin) == 0,
{
    lemma_no_harmonic_power(magnitudes, fundamental_bin, NUMBER_HARMONICS as int);
    crate::arith::lemma_floor_sqrt_unique(0, 0);
    assert(0int * RATIO_ONE * RATIO_ONE == 0);
    assert(0int / fundamental_mag == 0) by (nonlinear_arith)
        requires
            fundamental_mag > 0,
    ;
    assert forall|k: int| 1 <= k < NUMBER_HARMONICS implies #[trigger] harmonic_ratio(
        magnitudes,
        fundamental_mag,
        fundamental_bin,
        k,
    ) == 0 by {
        assert(harmonic_magnitude(magnitudes, fundamental_bin, k) == 0);
        assert(0int * RATIO_ONE == 0);
    }
}

proof fn lemma_no_harmonic_power(magnitudes: Seq<u32>, fundamental_bin: int, k: int)
    requires
        0 <= k <= NUMBER_HARMONICS,
        forall|j: int|
            1 <= j < NUMBER_HARMONICS ==> #[trigger] harmonic_magnitude(
                magnitudes,
                fundamental_bin,
                j,
            ) == 0,
    ensures
        harmonic_power_sum(magnitudes, fundamental_bin, k) == 0,
    decreases k,
{
    if k > 1 {
        lemma_no_harmonic_power(magnitudes, fundamental_bin, k - 1);
        assert(harmonic_magnitude(magnitudes, fundamental_bin, k - 1) == 0);
    }
}

/// The odd harmonics of a spectrum relative to its fundamental, and the total
/// harmonic distortion, all in parts per million. The harmonic number `k` has
/// the order `2 * k + 1`; number 0 is the fundamental itself, and harmonics
/// beyond the spectrum count as zero. The distortion is the root of the
/// summed squares of the harmonics 1 to 20 by the fundamental.
pub fn calculate_harmonics_and_thd(
    magnitudes: &[u32],
    fundamental_mag: u32,
    fundamental_bin: usize,
) -> (result: ([i64; NUMBER_HARMONICS], i64))
    requires
        fundamental_mag > 0,
    ensures
        forall|k: int|
            0 <= k < NUMBER_HARMONICS ==> #[trigger] result.0[k] == harmonic_ratio(
                magnitudes@,
                fundamental_mag as int,
                fundamental_bin as int,
                k,
            ),
        result.1 == distortion(magnitudes@, fundamental_mag as int, fundamental_bin as int),
        result.1 >= 0,
        forall|k: int| 0 <= k < NUMBER_HARMONICS ==> #[trigger] result.0[k] >= 0,
{
    let mut harmonics: [i64; NUMBER_HARMONICS] = [0i64; NUMBER_HARMONICS];
    let mut power_sum: u128 = 0;
    let one: u128 = RATIO_ONE as u128;
    assert(one == 1_000_000);
    let mut k: usize = 0;
    while k < NUMBER_HARMONICS
        invariant
            k <= NUMBER_HARMONICS,
            fundamental_mag > 0,
            one == 1_000_000,
            power_sum == harmonic_power_sum(magnitudes@, fundamental_bin as int, k as int),
            forall|j: int|
                0 <= j < k ==> #[trigger] harmonics[j] == harmonic_ratio(
                    magnitudes@,
                    fundamental_mag as int,
                    fundamental_bin as int,
                    j,
                ),
            forall|j: int| 0 <= j < k ==> #[trigger] harmonics[j] >= 0,
        decreases NUMBER_HARMONICS - k,
    {
        let magnitude: u32 = magnitude_of_harmonic(magnitudes, fundamental_bin, k);
        let ratio: u128 = (magnitude as u128 * one) / (fundamental_mag as u128);
        assert(ratio <= 0xffff_ffff * 1_000_000) by (nonlinear_arith)
            requires
                ratio == (magnitude * 1_000_000) / (fundamental_mag as int),
                0 <= magnitude <= 0xffff_ffff,
                fundamental_mag > 0,
        ;
        harmonics[k] = ratio as i64;
        proof {
            lemma_harmonic_power_sum_bound(magnitudes@, fundamental_bin as int, k as int);
            lemma_harmonic_power_sum_bound(magnitudes@, fundamental_bin as int, k + 1);
            assert(magnitude * magnitude <= 0xffff_fffe_0000_0001) by (nonlinear_arith)
                requires
                    0 <= magnitude <= 0xffff_ffff,
            ;
        }
        if k > 0 {
            power_sum = power_sum + magnitude as u128 * magnitude as u128;
        }
        k = k + 1;
    }
    proof {
        lemma_harmonic_power_sum_bound(
            magnitudes@,
            fundamental_bin as int,
            NUMBER_HARMONICS as int,
        );
        assert(power_sum * one * one == power_sum * 1_000_000_000_000) by (nonlinear_arith)
            requires
                one == 1_000_000,
        ;
    }
    let scaled: u128 = power_sum * 1_000_000_000_000;
    let root: u64 = integer_sqrt(scaled);
    let thd: u64 = root / fundamental_mag as u64;
    assert(root < 0x4000_0000_0000_0000) by (nonlinear_arith)
        requires
            root * root <= scaled,
            scaled <= 21 * 0xffff_fffe_0000_0001 * 1_000_000_000_000,
            0 <= root,
    ;
    (harmonics, thd as i64)
}

/// The odd harmonics and the total harmonic distortion of a wave of `samples`
/// samples from the magnitudes of its spectrum, for the fundamental frequency
/// `freq` and the sampling rate `fs`, both in millihertz. `None` when the
/// sampling rate is zero, or the bin of the fundamental lies outside the
/// spectrum or is empty.
pub fn compute_harmonics_and_thd(magnitudes: &[u32], samples: usize, freq: u32, fs: u32) -> (result:
    Option<([i64; NUMBER_HARMONICS], i64)>)
    ensures
        result.is_some() == harmonics_available(
            magnitudes@,
            samples as int,
            freq as int,
            fs as int,
        ),
        result.is_some() ==> {
            let bin = fundamental_bin_of(freq as int, samples as int, fs as int);
            &&& forall|k: int|
                0 <= k < NUMBER_HARMONICS ==> #[trigger] result.unwrap().0[k] == harmonic_ratio(
                    magnitudes@,
                    magnitudes@[bin] as int,
                    bin,
                    k,
                )
            &&& result.unwrap().1 == distortion(magnitudes@, magnitudes@[bin] as int, bin)
            &&& result.unwrap().1 >= 0
            &&& forall|k: int| 0 <= k < NUMBER_HARMONICS ==> #[trigger] result.unwrap().0[k] >= 0
        },
{
    if fs == 0 {
        return None;
    }
    assert(freq * samples <= 0xffff_ffff * 0xffff_ffff_ffff_ffff) by (nonlinear_arith)
        requires
            0 <= freq <= 0xffff_ffff,
            0 <= samples <= 0xffff_ffff_ffff_ffff,
    ;
    let product: u128 = freq as u128 * samples as u128;
    let bin: u128 = (2 * product + fs as u128) / (2 * fs as u128);
    if bin >= magnitudes.len() as u128 {
        return None;
    }
    let fundamental_bin: usize = bin as usize;
    let fundamental_mag: u32 = magnitudes[fundamental_bin];
    if fundamental_mag == 0 {
        return None;
    }
    Some(calculate_harmonics_and_thd(magnitudes, fundamental_mag, fundamental_bin))
}

/// Everything but the harmonics and the distortion of two signals agrees.
pub open spec fn same_but_harmonics(a: MetrologyInsightSignal, b: MetrologyInsightSignal) -> bool {
    &&& a.wave == b.wave
    &&& a.real_wave == b.real_wave
    &&& a.length == b.length
    &&& a.length_cycle == b.length_cycle
    &&& a.calc_freq == b.calc_freq
    &&& a.integrate == b.integrate
    &&& a.peak == b.peak
    &&& a.rms == b.rms
    &&& a.freq_nominal == b.freq_nominal
    &&& a.freq_zc == b.freq_zc
    &&& a.sc_thres == b.sc_thres
    &&& a.signal_type == b.signal_type
    &&& a.adc_factor == b.adc_factor
    &&& a.adc_scale == b.adc_scale
    &&& a.dc_offset == b.dc_offset
}

/// The frequency that the harmonics of a signal are taken at: its smoothed
/// frequency, limited to the range of a frequency.
pub open spec fn harmonics_frequency(signal: MetrologyInsightSignal) -> int {
    frequency_of_state(signal.freq_zc)
}

/// A signal has harmonics to report from a spectrum when its whole cycles
/// fill the resampled wave and the spectrum holds its fundamental.
pub open spec fn harmonics_reported(
    signal: MetrologyInsightSignal,
    magnitudes: Seq<u32>,
    adc_samples_second: int,
) -> bool {
    signal.length_cycle >= FFT_RESOLUTION && harmonics_available(
        magnitudes,
        FFT_RESOLUTION as int,
        harmonics_frequency(signal),
        adc_samples_second,
    )
}

/// The wave of a signal that is to be transformed: its calibrated wave
/// resampled to `FFT_RESOLUTION` samples. `None` when the whole cycles of the
/// signal are shorter than that, or the wave is empty.
pub fn harmonics_input(signal: &MetrologyInsightSignal) -> (wave: Option<Vec<i32>>)
    ensures
        wave.is_some() == (signal.length_cycle >= FFT_RESOLUTION && signal.real_wave@.len() > 0),
        wave.is_some() ==> wave.unwrap()@.len() == FFT_RESOLUTION && forall|i: int|
            0 <= i < FFT_RESOLUTION ==> #[trigger] wave.unwrap()@[i] == resampled_sample(
                signal.real_wave@,
                FFT_RESOLUTION as int,
                i,
            ),
{
    if signal.length_cycle >= FFT_RESOLUTION && signal.real_wave.len() > 0 {
        Some(resample_signal(signal.real_wave.as_slice(), FFT_RESOLUTION))
    } else {
        None
    }
}

/// Takes the harmonics and the distortion of a signal from the magnitudes of
/// the spectrum of its resampled wave and feeds each to its exponential
/// average in the signal. The signal stays as it is when its whole cycles
/// are shorter than `FFT_RESOLUTION` or the spectrum does not hold its
/// fundamental.
pub fn store_harmonics(
    signal: &mut MetrologyInsightSignal,
    magnitudes: &[u32],
    adc_samples_second: u32,
    avg: u32,
)
    requires
        avg <= RATIO_ONE,
    ensures
        same_but_harmonics(*final(signal), *old(signal)),
        !harmonics_reported(*old(signal), magnitudes@, adc_samples_second as int) ==> *final(signal) == *old(signal),
        harmonics_reported(*old(signal), magnitudes@, adc_samples_second as int) ==> {
            let bin = fundamental_bin_of(
                harmonics_frequency(*old(signal)),
                FFT_RESOLUTION as int,
                adc_samples_second as int,
            );
            &&& forall|k: int|
                0 <= k < NUMBER_HARMONICS ==> #[trigger] final(signal).harmonics[k] == smoothed(
                    harmonic_ratio(magnitudes@, magnitudes@[bin] as int, bin, k),
                    old(signal).harmonics[k] as int,
                    avg as int,
                )
            &&& final(signal).thd == smoothed(
                distortion(magnitudes@, magnitudes@[bin] as int, bin),
                old(signal).thd as int,
                avg as int,
            )
        },
{
    if signal.length_cycle < FFT_RESOLUTION {
        return ;
    }
    let frequency: u32 = frequency_from_state(signal.freq_zc);
    match compute_harmonics_and_thd(magnitudes, FFT_RESOLUTION, frequency, adc_samples_second) {
        None => {},
        Some((harmonics, thd)) => {
            let mut states: [i64; NUMBER_HARMONICS] = signal.harmonics;
            let mut k: usize = 0;
            while k < NUMBER_HARMONICS
                invariant
                    k <= NUMBER_HARMONICS,
                    avg <= RATIO_ONE,
                    forall|j: int|
                        0 <= j < k ==> #[trigger] states[j] == smoothed(
                            harmonics[j] as int,
                            signal.harmonics[j] as int,
                            avg as int,
                        ),
                    forall|j: int|
                        k <= j < NUMBER_HARMONICS ==> #[trigger] states[j] == signal.harmonics[j],
                decreases NUMBER_HARMONICS - k,
            {
                let mut state: i64 = states[k];
                update_average(harmonics[k], &mut state, avg);
                states[k] = state;
                k = k + 1;
            }
            signal.harmonics = states;
            update_average(thd, &mut signal.thd, avg);
        },
    }
}

/// Stores the harmonics of the channel of the given kind from the magnitudes
/// of the spectrum of its resampled wave. The other channel and the other
/// metrics stay as they are.
pub fn update_harmonics(
    socket: &mut MetrologyInsightSocket,
    signal_type: MetrologyInsightSignalType,
    magnitudes: &[u32],
    adc_samples_second: u32,
    avg: u32,
)
    requires
        avg <= RATIO_ONE,
        old(socket).wf(),
    ensures
        final(socket).wf(),
        final(socket).phase_angles == old(socket).phase_angles,
        final(socket).power_metrics == old(socket).power_metrics,
        final(socket).energy_metrics == old(socket).energy_metrics,
        match signal_type {
            MetrologyInsightSignalType::Voltage => {
                &&& final(socket).current_signal == old(socket).current_signal
                &&& harmonics_stored(
                    old(socket).voltage_signal,
                    final(socket).voltage_signal,
                    magnitudes@,
                    adc_samples_second as int,
                    avg as int,
                )
            },
            MetrologyInsightSignalType::Current => {
                &&& final(socket).voltage_signal == old(socket).voltage_signal
                &&& harmonics_stored(
                    old(socket).current_signal,
                    final(socket).current_signal,
                    magnitudes@,
                    adc_samples_second as int,
                    avg as int,
                )
            },
        },
{
    match signal_type {
        MetrologyInsightSignalType::Voltage => {
            store_harmonics(&mut socket.voltage_signal, magnitudes, adc_samples_second, avg);
        },
        MetrologyInsightSignalType::Current => {
            store_harmonics(&mut socket.current_signal, magnitudes, adc_samples_second, avg);
        },
    }
}

/// What `store_harmonics` makes of a signal.
pub open spec fn harmonics_stored(
    before: MetrologyInsightSignal,
    after: MetrologyInsightSignal,
    magnitudes: Seq<u32>,
    adc_samples_second: int,
    avg: int,
) -> bool {
    &&& same_but_harmonics(after, before)
    &&& !harmonics_reported(before, magnitudes, adc_samples_second) ==> after == before
    &&& harmonics_reported(before, magnitudes, adc_samples_second) ==> {
        let bin = fundamental_bin_of(
            harmonics_frequency(before),
            FFT_RESOLUTION as int,
            adc_samples_second,
        );
        &&& forall|k: int|
            0 <= k < NUMBER_HARMONICS ==> #[trigger] after.harmonics[k] == smoothed(
                harmonic_ratio(magnitudes, magnitudes[bin] as int, bin, k),
                before.harmonics[k] as int,
                avg,
            )
        &&& after.thd == smoothed(
            distortion(magnitudes, magnitudes[bin] as int, bin),
            before.thd as int,
            avg,
        )
    }
}

} // verus!
