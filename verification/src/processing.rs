//! The pipeline of one acquisition: each signal is conditioned, measured and
//! stored in the socket, then phase angles, powers and energy follow from
//! what the socket holds.

use vstd::prelude::*;
use crate::arith::RATIO_ONE;
use crate::conditioning::{
    convert_raw_to_physical,
    extremes,
    is_signal_valid,
    moving_average,
    moving_average_at,
    physical_sample,
    remove_signal_offset,
    signal_offset,
    signal_valid,
    wave_max,
    wave_midpoint,
};
use crate::energy::{
    lemma_one_quadrant_per_acquisition,
    lemma_registers_never_decrease,
    lemma_sums_follow_registers,
    quadrant_of,
    update_total_energy,
    Quadrant,
};
use crate::frequency::{
    calculate_nominal_frequency,
    calculate_zero_crossing_frequency,
    limit_length_to_cycles,
    nominal_frequency,
    nominal_length,
    samples_per_cycle,
    whole_cycles,
    zero_crossing_frequency,
};
use crate::harmonics::{harmonics_input, harmonics_stored, update_harmonics, FFT_RESOLUTION, resampled_sample};
use crate::integration::{integrated_wave, signal_integrate};
use crate::phase::{absolute_angle, direction_of, update_phase_angles};
use crate::power::{
    all_power_metrics,
    calculate_rms,
    frequency_from_state,
    frequency_of_state,
    rms,
    smoothed_power_metrics,
    update_power_metrics,
};
use crate::smoothing::{smoothed, update_average};
use crate::types::{
    ConfigurationError,
    MetrologyInsightConfig,
    MetrologyInsightSignal,
    MetrologyInsightSignalType,
    MetrologyInsightSocket,
    FREQ_NOMINAL_50,
    FREQ_NOMINAL_60,
};

verus! {

/// Samples that the pre-filter reaches back.
pub const PREFILTER_WINDOW: usize = 3;

/// Samples that are processed beyond the whole cycles.
pub const EXTRA_SAMPLES: usize = 0;

/// A raw wave after the pre-filter.
pub open spec fn filtered_wave(raw: Seq<i32>) -> Seq<i32> {
    Seq::new(raw.len(), |i: int| moving_average_at(raw, PREFILTER_WINDOW as int, i) as i32)
}

/// A raw wave after its offset was removed.
pub open spec fn centered_wave(raw: Seq<i32>) -> Seq<i32> {
    Seq::new(raw.len(), |i: int| (raw[i] - wave_midpoint(raw)) as i32)
}

/// A raw wave in physical units, by the calibration of `signal`.
pub open spec fn physical_wave(raw: Seq<i32>, signal: MetrologyInsightSignal) -> Seq<i32> {
    Seq::new(
        raw.len(),
        |i: int|
            physical_sample(raw[i], signal.adc_factor, signal.adc_scale, signal.signal_type) as i32,
    )
}

/// What one acquisition of one channel yields.
pub struct Measurement {
    /// The calibrated wave, integrated where the signal asks for it.
    pub wave: Seq<i32>,
    /// The frequency of the acquisition, in millihertz.
    pub frequency: int,
    /// The nominal frequency that belongs to it, in millihertz.
    pub freq_nominal: int,
    /// The samples of the whole cycles.
    pub length_cycle: int,
    /// The samples that are processed.
    pub length: int,
    /// The offset that was removed from the raw wave, in ADC counts.
    pub offset: int,
    /// The largest sample seen.
    pub peak: int,
    /// The root mean square over the whole cycles.
    pub rms: int,
}

/// The samples of a buffer that are processed: the length that the signal
/// declares, adapted when the nominal frequency has changed, and no more
/// than the wave holds.
pub open spec fn processed_length(
    signal: MetrologyInsightSignal,
    frequency: int,
) -> int {
    let length = nominal_length(frequency, signal.length as int, signal.freq_nominal as int);
    if length <= signal.wave@.len() {
        length
    } else {
        signal.wave@.len() as int
    }
}

/// The measurement of a signal whose raw wave is usable. The frequency is
/// that of the zero crossings of the calibrated wave, or 50 Hz when it has
/// fewer than two, on the channel that measures the frequency; the other
/// channel takes the frequency that the socket holds for the voltage. The
/// whole cycles are those of the nominal frequency that fit the processed
/// samples of the buffer.
pub open spec fn measurement(
    socket: MetrologyInsightSocket,
    signal: MetrologyInsightSignal,
    adc_samples_second: int,
) -> Measurement {
    let physical = physical_wave(centered_wave(filtered_wave(signal.wave@)), signal);
    let frequency = if signal.calc_freq {
        match zero_crossing_frequency(physical, adc_samples_second) {
            Some(f) => f,
            None => FREQ_NOMINAL_50 as int,
        }
    } else {
        frequency_of_state(socket.voltage_signal.freq_zc)
    };
    let freq_nominal = nominal_frequency(frequency);
    let length_cycle = whole_cycles(
        processed_length(signal, frequency),
        adc_samples_second,
        freq_nominal,
    );
    let wave = if signal.integrate {
        integrated_wave(physical, frequency, adc_samples_second)
    } else {
        physical
    };
    Measurement {
        wave,
        frequency,
        freq_nominal,
        length_cycle,
        length: length_cycle + EXTRA_SAMPLES,
        offset: wave_midpoint(filtered_wave(signal.wave@)),
        peak: if wave_max(wave) > signal.peak {
            wave_max(wave)
        } else {
            signal.peak as int
        },
        rms: rms(wave, length_cycle, frequency, adc_samples_second),
    }
}

/// The channel `after` holds the measurement `m` of `signal`, stored over
/// the channel `before`: wave, lengths, nominal frequency and peak are those
/// of the measurement, and the root mean square went through the exponential
/// average. On the voltage channel the frequency went through the average
/// too; the current channel holds the frequency as it was measured, and the
/// short-circuit threshold of the signal. The offset is the one that was
/// removed. Everything else is as before.
pub open spec fn channel_stored(
    before: MetrologyInsightSignal,
    after: MetrologyInsightSignal,
    m: Measurement,
    signal: MetrologyInsightSignal,
    avg: int,
) -> bool {
    &&& after.real_wave@ == m.wave
    &&& after.freq_nominal == m.freq_nominal
    &&& after.length_cycle == m.length_cycle
    &&& after.length == m.length
    &&& after.peak == m.peak
    &&& after.rms == smoothed(m.rms, before.rms as int, avg)
    &&& after.freq_zc == match signal.signal_type {
        MetrologyInsightSignalType::Voltage => smoothed(m.frequency, before.freq_zc as int, avg),
        MetrologyInsightSignalType::Current => m.frequency,
    }
    &&& after.sc_thres == match signal.signal_type {
        MetrologyInsightSignalType::Voltage => before.sc_thres,
        MetrologyInsightSignalType::Current => signal.sc_thres,
    }
    &&& after.wave == before.wave
    &&& after.calc_freq == before.calc_freq
    &&& after.integrate == before.integrate
    &&& after.harmonics == before.harmonics
    &&& after.thd == before.thd
    &&& after.signal_type == before.signal_type
    &&& after.adc_factor == before.adc_factor
    &&& after.adc_scale == before.adc_scale
    &&& after.dc_offset == m.offset
}

/// The socket `after` is the socket `before` with `signal` processed. A
/// signal whose filtered wave is not usable leaves the socket as it is. A
/// usable signal is measured and stored in the channel of its kind; the other
/// channel and the metrics stay as they are.
pub open spec fn signal_processed(
    before: MetrologyInsightSocket,
    signal: MetrologyInsightSignal,
    adc_samples_second: int,
    avg: int,
    after: MetrologyInsightSocket,
) -> bool {
    if signal_valid(filtered_wave(signal.wave@), signal.signal_type) {
        let m = measurement(before, signal, adc_samples_second);
        &&& after.phase_angles == before.phase_angles
        &&& after.power_metrics == before.power_metrics
        &&& after.energy_metrics == before.energy_metrics
        &&& match signal.signal_type {
            MetrologyInsightSignalType::Voltage => {
                &&& after.current_signal == before.current_signal
                &&& channel_stored(before.voltage_signal, after.voltage_signal, m, signal, avg)
            },
            MetrologyInsightSignalType::Current => {
                &&& after.voltage_signal == before.voltage_signal
                &&& channel_stored(before.current_signal, after.current_signal, m, signal, avg)
            },
        }
    } else {
        after == before
    }
}

/// Processes one signal into the socket. The raw wave goes through the
/// pre-filter; if it is then not usable, the socket stays as it is.
/// Otherwise the offset is removed, the wave is converted to physical units,
/// the frequency is taken from its zero crossings or from the socket, the
/// length is cut to whole cycles of the nominal frequency, the wave is
/// integrated if the signal asks for it, and peak and root mean square are
/// measured and stored in the channel of the signal's kind, root mean square
/// and voltage frequency through the exponential average with the smoothing
/// constant `avg_sec` in parts per million. The sampling rate
/// `adc_samples_second`, in millihertz, must give a cycle of 60 Hz at least
/// half a sample, and the wave may not have more samples than fit 32 bits.
pub fn process_signal(
    socket: &mut MetrologyInsightSocket,
    signal: &mut MetrologyInsightSignal,
    adc_samples_second: u32,
    avg_sec: u32,
)
    requires
        old(socket).wf(),
        avg_sec <= RATIO_ONE,
        2 * adc_samples_second >= FREQ_NOMINAL_60,
        old(signal).wave@.len() <= u32::MAX,
    ensures
        signal_processed(
            *old(socket),
            *old(signal),
            adc_samples_second as int,
            avg_sec as int,
            *final(socket),
        ),
        final(socket).wf(),
        final(signal).signal_type == old(signal).signal_type,
        final(signal).calc_freq == old(signal).calc_freq,
        final(signal).integrate == old(signal).integrate,
        final(signal).adc_factor == old(signal).adc_factor,
        final(signal).adc_scale == old(signal).adc_scale,
        final(signal).sc_thres == old(signal).sc_thres,
        !signal_valid(filtered_wave(old(signal).wave@), old(signal).signal_type) ==> {
            &&& final(signal).wave@ == filtered_wave(old(signal).wave@)
            &&& final(signal).length == old(signal).length
            &&& final(signal).length_cycle == old(signal).length_cycle
            &&& final(signal).freq_zc == old(signal).freq_zc
            &&& final(signal).freq_nominal == old(signal).freq_nominal
            &&& final(signal).peak == old(signal).peak
            &&& final(signal).dc_offset == old(signal).dc_offset
        },
        signal_valid(filtered_wave(old(signal).wave@), old(signal).signal_type) ==> {
            let m = measurement(*old(socket), *old(signal), adc_samples_second as int);
            &&& final(signal).wave@ == centered_wave(filtered_wave(old(signal).wave@))
            &&& final(signal).length == m.length
            &&& final(signal).length_cycle == m.length_cycle
            &&& final(signal).freq_zc == m.frequency
            &&& final(signal).freq_nominal == m.freq_nominal
            &&& final(signal).peak == m.peak
            &&& final(signal).dc_offset == m.offset
            &&& final(signal).length_cycle <= final(signal).length <= old(signal).wave@.len()
            &&& (final(signal).length_cycle as int) % samples_per_cycle(
                adc_samples_second as int,
                final(signal).freq_nominal as int,
            ) == 0
            &&& match old(signal).signal_type {
                MetrologyInsightSignalType::Voltage => final(socket).voltage_signal.length_cycle
                    == final(signal).length_cycle && final(socket).voltage_signal.real_wave@.len()
                    == old(signal).wave@.len(),
                MetrologyInsightSignalType::Current => final(socket).current_signal.length_cycle
                    == final(signal).length_cycle && final(socket).current_signal.real_wave@.len()
                    == old(signal).wave@.len(),
            }
        },
{
    moving_average(signal.wave.as_mut_slice(), PREFILTER_WINDOW);
    assert(signal.wave@ =~= filtered_wave(old(signal).wave@));
    if !is_signal_valid(signal.wave.as_slice(), signal.signal_type) {
        return ;
    }
    let ghost filtered: Seq<i32> = signal.wave@;
    signal.dc_offset = signal_offset(signal.wave.as_slice());
    remove_signal_offset(signal.wave.as_mut_slice());
    assert(signal.wave@ =~= centered_wave(filtered));
    let physical: Vec<i32> = convert_raw_to_physical(signal);
    assert(physical@ =~= physical_wave(signal.wave@, *old(signal)));
    let frequency: u32 = if signal.calc_freq {
        match calculate_zero_crossing_frequency(physical.as_slice(), adc_samples_second) {
            Some(f) => f,
            None => FREQ_NOMINAL_50,
        }
    } else {
        frequency_from_state(socket.voltage_signal.freq_zc)
    };
    signal.freq_zc = frequency as i64;
    let mut length: usize = signal.length;
    signal.freq_nominal = calculate_nominal_frequency(frequency, &mut length, signal.freq_nominal);
    if length > signal.wave.len() {
        length = signal.wave.len();
    }
    signal.length_cycle = limit_length_to_cycles(length, signal.freq_nominal, adc_samples_second);
    signal.length = signal.length_cycle + EXTRA_SAMPLES;
    let real_wave: Vec<i32> = if signal.integrate {
        signal_integrate(physical.as_slice(), frequency, adc_samples_second)
    } else {
        physical
    };
    let (_, peak) = extremes(real_wave.as_slice());
    if peak as i64 > signal.peak {
        signal.peak = peak as i64;
    }
    let measured_rms: u32 = calculate_rms(
        real_wave.as_slice(),
        signal.length_cycle,
        frequency,
        adc_samples_second,
    );
    match signal.signal_type {
        MetrologyInsightSignalType::Voltage => {
            socket.voltage_signal.real_wave = real_wave;
            socket.voltage_signal.freq_nominal = signal.freq_nominal;
            socket.voltage_signal.length_cycle = signal.length_cycle;
            socket.voltage_signal.length = signal.length;
            socket.voltage_signal.peak = signal.peak;
            socket.voltage_signal.dc_offset = signal.dc_offset;
            update_average(measured_rms as i64, &mut socket.voltage_signal.rms, avg_sec);
            update_average(frequency as i64, &mut socket.voltage_signal.freq_zc, avg_sec);
        },
        MetrologyInsightSignalType::Current => {
            socket.current_signal.real_wave = real_wave;
            socket.current_signal.freq_nominal = signal.freq_nominal;
            socket.current_signal.length_cycle = signal.length_cycle;
            socket.current_signal.length = signal.length;
            socket.current_signal.sc_thres = signal.sc_thres;
            socket.current_signal.peak = signal.peak;
            socket.current_signal.dc_offset = signal.dc_offset;
            socket.current_signal.freq_zc = frequency as i64;
            update_average(measured_rms as i64, &mut socket.current_signal.rms, avg_sec);
        },
    }
}

/// The engine: the state of one metering point and its configuration.
#[derive(Clone, Debug)]
pub struct MetrologyInsight {
    pub socket: MetrologyInsightSocket,
    pub config: MetrologyInsightConfig,
}

/// The socket `after` is the socket `before` with the voltage signal
/// processed and then the current signal.
pub open spec fn signals_processed(
    before: MetrologyInsightSocket,
    voltage_signal: MetrologyInsightSignal,
    current_signal: MetrologyInsightSignal,
    config: MetrologyInsightConfig,
    after: MetrologyInsightSocket,
) -> bool {
    exists|with_voltage: MetrologyInsightSocket|
        {
            &&& signal_processed(
                before,
                voltage_signal,
                config.adc_samples_seconds as int,
                config.avg_sec as int,
                with_voltage,
            )
            &&& #[trigger] signal_processed(
                with_voltage,
                current_signal,
                config.adc_samples_seconds as int,
                config.avg_sec as int,
                after,
            )
        }
}

/// The socket `after` holds the signals and the energy of `before`, the
/// phase angles of its waves with the given signed angle, and its powers
/// after those of its waves went through the exponential average.
pub open spec fn power_updated(
    before: MetrologyInsightSocket,
    c2v_angle: int,
    config: MetrologyInsightConfig,
    after: MetrologyInsightSocket,
) -> bool {
    &&& after.voltage_signal == before.voltage_signal
    &&& after.current_signal == before.current_signal
    &&& after.energy_metrics == before.energy_metrics
    &&& after.phase_angles.c2v_angle == c2v_angle
    &&& after.phase_angles.v_angle == absolute_angle(
        before.voltage_signal.real_wave@,
        config.adc_samples_per_cycle as int,
    )
    &&& after.phase_angles.c_angle == absolute_angle(
        before.current_signal.real_wave@,
        config.adc_samples_per_cycle as int,
    )
    &&& after.phase_angles.direction == direction_of(c2v_angle)
    &&& after.power_metrics == smoothed_power_metrics(
        all_power_metrics(
            before.voltage_signal,
            before.current_signal,
            config.adc_samples_seconds as int,
        ),
        before.power_metrics,
        config.avg_sec as int,
    )
}

/// The socket `after` is the socket `before` with the energy of its powers,
/// over the samples of its voltage wave, added to its registers.
pub open spec fn energy_updated(
    before: MetrologyInsightSocket,
    config: MetrologyInsightConfig,
    after: MetrologyInsightSocket,
) -> bool {
    &&& after.voltage_signal == before.voltage_signal
    &&& after.current_signal == before.current_signal
    &&& after.phase_angles == before.phase_angles
    &&& after.power_metrics == before.power_metrics
    &&& after.energy_metrics == before.energy_metrics.accumulated(
        before.power_metrics.real_power as int,
        before.power_metrics.reactive_power as int,
        before.voltage_signal.real_wave@.len() as int,
        config.adc_samples_seconds as int,
    )
}

/// The socket `after` is the socket `before` one acquisition later: the
/// signals were processed, then the phase angles and the powers were taken
/// from the waves, then the energy from the powers, each stage on what the
/// stages before it left in the socket.
pub open spec fn acquisition_processed(
    before: MetrologyInsightSocket,
    voltage_signal: MetrologyInsightSignal,
    current_signal: MetrologyInsightSignal,
    c2v_angle: int,
    config: MetrologyInsightConfig,
    after: MetrologyInsightSocket,
) -> bool {
    exists|with_signals: MetrologyInsightSocket, with_power: MetrologyInsightSocket|
        {
            &&& #[trigger] signals_processed(
                before,
                voltage_signal,
                current_signal,
                config,
                with_signals,
            )
            &&& #[trigger] energy_updated(with_power, config, after)
            &&& power_updated(with_signals, c2v_angle, config, with_power)
        }
}

/// Processing a signal leaves the energy and the powers of the socket as
/// they are.
pub proof fn lemma_signal_keeps_metrics(
    before: MetrologyInsightSocket,
    signal: MetrologyInsightSignal,
    adc_samples_second: int,
    avg: int,
    after: MetrologyInsightSocket,
)
    requires
        signal_processed(before, signal, adc_samples_second, avg, after),
    ensures
        after.energy_metrics == before.energy_metrics,
        after.power_metrics == before.power_metrics,
        after.phase_angles == before.phase_angles,
{
}

/// Over one acquisition no energy register decreases, whatever the signals.
pub proof fn lemma_acquisition_never_decreases_energy(
    before: MetrologyInsightSocket,
    voltage_signal: MetrologyInsightSignal,
    current_signal: MetrologyInsightSignal,
    c2v_angle: int,
    config: MetrologyInsightConfig,
    after: MetrologyInsightSocket,
)
    requires
        config.is_valid(),
        acquisition_processed(before, voltage_signal, current_signal, c2v_angle, config, after),
    ensures
        after.energy_metrics.active.q1 >= before.energy_metrics.active.q1,
        after.energy_metrics.active.q2 >= before.energy_metrics.active.q2,
        after.energy_metrics.active.q3 >= before.energy_metrics.active.q3,
        after.energy_metrics.active.q4 >= before.energy_metrics.active.q4,
        after.energy_metrics.reactive.q1 >= before.energy_metrics.reactive.q1,
        after.energy_metrics.reactive.q2 >= before.energy_metrics.reactive.q2,
        after.energy_metrics.reactive.q3 >= before.energy_metrics.reactive.q3,
        after.energy_metrics.reactive.q4 >= before.energy_metrics.reactive.q4,
        after.energy_metrics.wf(),
{
    let (with_signals, with_power) = choose|
        with_signals: MetrologyInsightSocket,
        with_power: MetrologyInsightSocket,
    |
        {
            &&& #[trigger] signals_processed(
                before,
                voltage_signal,
                current_signal,
                config,
                with_signals,
            )
            &&& #[trigger] energy_updated(with_power, config, after)
            &&& power_updated(with_signals, c2v_angle, config, with_power)
        };
    lemma_signals_keep_metrics(before, voltage_signal, current_signal, config, with_signals);
    lemma_registers_never_decrease(
        with_power.energy_metrics,
        with_power.power_metrics.real_power as int,
        with_power.power_metrics.reactive_power as int,
        with_power.voltage_signal.real_wave@.len() as int,
        config.adc_samples_seconds as int,
    );
    lemma_sums_follow_registers(
        with_power.energy_metrics,
        with_power.power_metrics.real_power as int,
        with_power.power_metrics.reactive_power as int,
        with_power.voltage_signal.real_wave@.len() as int,
        config.adc_samples_seconds as int,
    );
}

/// Over one acquisition only the registers of the quadrant of the powers
/// that the socket then holds can change. So while the real power is above
/// zero the second and the third quadrant stay as they are, and with a
/// reactive power that is not negative the fourth does too.
pub proof fn lemma_acquisition_fills_one_quadrant(
    before: MetrologyInsightSocket,
    voltage_signal: MetrologyInsightSignal,
    current_signal: MetrologyInsightSignal,
    c2v_angle: int,
    config: MetrologyInsightConfig,
    after: MetrologyInsightSocket,
)
    requires
        acquisition_processed(before, voltage_signal, current_signal, c2v_angle, config, after),
    ensures
        ({
            let target = quadrant_of(
                after.power_metrics.real_power as int,
                after.power_metrics.reactive_power as int,
            );
            let old_energy = before.energy_metrics;
            let new_energy = after.energy_metrics;
            &&& target != Some(Quadrant::Q1) ==> new_energy.active.q1 == old_energy.active.q1
                && new_energy.reactive.q1 == old_energy.reactive.q1
            &&& target != Some(Quadrant::Q2) ==> new_energy.active.q2 == old_energy.active.q2
                && new_energy.reactive.q2 == old_energy.reactive.q2
            &&& target != Some(Quadrant::Q3) ==> new_energy.active.q3 == old_energy.active.q3
                && new_energy.reactive.q3 == old_energy.reactive.q3
            &&& target != Some(Quadrant::Q4) ==> new_energy.active.q4 == old_energy.active.q4
                && new_energy.reactive.q4 == old_energy.reactive.q4
        }),
        after.power_metrics.real_power > 0 ==> {
            &&& after.energy_metrics.active.q2 == before.energy_metrics.active.q2
            &&& after.energy_metrics.active.q3 == before.energy_metrics.active.q3
            &&& after.power_metrics.reactive_power >= 0 ==> after.energy_metrics.active.q4
                == before.energy_metrics.active.q4
        },
{
    let (with_signals, with_power) = choose|
        with_signals: MetrologyInsightSocket,
        with_power: MetrologyInsightSocket,
    |
        {
            &&& #[trigger] signals_processed(
                before,
                voltage_signal,
                current_signal,
                config,
                with_signals,
            )
            &&& #[trigger] energy_updated(with_power, config, after)
            &&& power_updated(with_signals, c2v_angle, config, with_power)
        };
    lemma_signals_keep_metrics(before, voltage_signal, current_signal, config, with_signals);
    lemma_one_quadrant_per_acquisition(
        with_power.energy_metrics,
        with_power.power_metrics.real_power as int,
        with_power.power_metrics.reactive_power as int,
        with_power.voltage_signal.real_wave@.len() as int,
        config.adc_samples_seconds as int,
    );
}

/// Processing both signals leaves the energy and the powers of the socket as
/// they are.
pub proof fn lemma_signals_keep_metrics(
    before: MetrologyInsightSocket,
    voltage_signal: MetrologyInsightSignal,
    current_signal: MetrologyInsightSignal,
    config: MetrologyInsightConfig,
    after: MetrologyInsightSocket,
)
    requires
        signals_processed(before, voltage_signal, current_signal, config, after),
    ensures
        after.energy_metrics == before.energy_metrics,
        after.power_metrics == before.power_metrics,
        after.phase_angles == before.phase_angles,
{
    let with_voltage = choose|with_voltage: MetrologyInsightSocket|
        {
            &&& signal_processed(
                before,
                voltage_signal,
                config.adc_samples_seconds as int,
                config.avg_sec as int,
                with_voltage,
            )
            &&& #[trigger] signal_processed(
                with_voltage,
                current_signal,
                config.adc_samples_seconds as int,
                config.avg_sec as int,
                after,
            )
        };
    lemma_signal_keeps_metrics(
        before,
        voltage_signal,
        config.adc_samples_seconds as int,
        config.avg_sec as int,
        with_voltage,
    );
    lemma_signal_keeps_metrics(
        with_voltage,
        current_signal,
        config.adc_samples_seconds as int,
        config.avg_sec as int,
        after,
    );
}

impl MetrologyInsight {
    /// An engine with the state before the first acquisition, or the first
    /// fault of the configuration.
    pub fn new(config: MetrologyInsightConfig) -> (engine: Result<
        MetrologyInsight,
        ConfigurationError,
    >)
        ensures
            engine.is_ok() == config.is_valid(),
            engine.is_err() ==> config.fault() == Some(engine.unwrap_err()),
            engine.is_ok() ==> {
                &&& engine.unwrap().config == config
                &&& engine.unwrap().socket.is_initial()
                &&& engine.unwrap().socket.wf()
            },
    {
        match config.check() {
            Ok(()) => Ok(MetrologyInsight { socket: MetrologyInsightSocket::default(), config }),
            Err(fault) => Err(fault),
        }
    }

    /// A copy of the state, for reports.
    pub fn snapshot(&self) -> (copy: MetrologyInsightSocket)
        ensures
            copy.same_as(&self.socket),
    {
        self.socket.duplicate()
    }

    /// Processes the voltage signal and then the current signal into the
    /// socket: the first stage of an acquisition. A signal that is not usable
    /// leaves its channel as it was.
    pub fn process_signal(
        &mut self,
        voltage_signal: &mut MetrologyInsightSignal,
        current_signal: &mut MetrologyInsightSignal,
    )
        requires
            old(self).config.is_valid(),
            old(self).socket.wf(),
            old(voltage_signal).wave@.len() <= u32::MAX,
            old(current_signal).wave@.len() <= u32::MAX,
        ensures
            final(self).config == old(self).config,
            final(self).socket.wf(),
            signals_processed(
                old(self).socket,
                *old(voltage_signal),
                *old(current_signal),
                old(self).config,
                final(self).socket,
            ),
    {
        let adc_samples_seconds: u32 = self.config.adc_samples_seconds;
        let avg_sec: u32 = self.config.avg_sec;
        process_signal(&mut self.socket, voltage_signal, adc_samples_seconds, avg_sec);
        let ghost with_voltage: MetrologyInsightSocket = self.socket;
        process_signal(&mut self.socket, current_signal, adc_samples_seconds, avg_sec);
        proof {
            assert(signal_processed(
                with_voltage,
                *old(current_signal),
                adc_samples_seconds as int,
                avg_sec as int,
                self.socket,
            ));
        }
    }

    /// Takes the phase angles and the powers from the waves that the socket
    /// holds: the second stage of an acquisition. `c2v_angle` is the signed
    /// angle from current to voltage, in millionths of a degree, which the
    /// caller derives from its arc cosine.
    pub fn calculate_power_metrology(&mut self, c2v_angle: i64)
        requires
            old(self).config.is_valid(),
            old(self).socket.wf(),
        ensures
            final(self).config == old(self).config,
            final(self).socket.wf(),
            power_updated(old(self).socket, c2v_angle as int, old(self).config, final(self).socket),
    {
        let adc_samples_seconds: u32 = self.config.adc_samples_seconds;
        let avg_sec: u32 = self.config.avg_sec;
        let adc_samples_per_cycle: u32 = self.config.adc_samples_per_cycle;
        update_phase_angles(&mut self.socket, adc_samples_per_cycle, c2v_angle);
        update_power_metrics(&mut self.socket, adc_samples_seconds, avg_sec);
    }

    /// Adds the energy of the acquisition to the registers of its quadrant
    /// and derives the sums anew: the third stage of an acquisition.
    pub fn calculate_energy_metrology(&mut self)
        requires
            old(self).config.is_valid(),
            old(self).socket.wf(),
        ensures
            final(self).config == old(self).config,
            final(self).socket.wf(),
            energy_updated(old(self).socket, old(self).config, final(self).socket),
    {
        let adc_samples_seconds: u32 = self.config.adc_samples_seconds;
        update_total_energy(&mut self.socket, adc_samples_seconds);
    }

    /// Runs the pipeline on one acquisition: the voltage signal, then the
    /// current signal, then phase angles, powers and energy, in this order.
    /// `c2v_angle` is the signed angle from current to voltage, in
    /// millionths of a degree, which the caller derives from its arc
    /// cosine. A signal that is not usable leaves its channel as it was; the
    /// stages after it work on what the socket holds.
    pub fn process_and_update_metrics(
        &mut self,
        voltage_signal: &mut MetrologyInsightSignal,
        current_signal: &mut MetrologyInsightSignal,
        c2v_angle: i64,
    )
        requires
            old(self).config.is_valid(),
            old(self).socket.wf(),
            old(voltage_signal).wave@.len() <= u32::MAX,
            old(current_signal).wave@.len() <= u32::MAX,
        ensures
            final(self).config == old(self).config,
            final(self).socket.wf(),
            acquisition_processed(
                old(self).socket,
                *old(voltage_signal),
                *old(current_signal),
                c2v_angle as int,
                old(self).config,
                final(self).socket,
            ),
    {
        self.process_signal(voltage_signal, current_signal);
        let ghost with_signals: MetrologyInsightSocket = self.socket;
        self.calculate_power_metrology(c2v_angle);
        let ghost with_power: MetrologyInsightSocket = self.socket;
        self.calculate_energy_metrology();
        proof {
            assert(power_updated(with_signals, c2v_angle as int, old(self).config, with_power));
            assert(energy_updated(with_power, old(self).config, self.socket));
        }
    }

    /// The wave of the channel of the given kind that is to be transformed
    /// for its harmonics: see `harmonics_input`.
    pub fn harmonics_request(&self, signal_type: MetrologyInsightSignalType) -> (wave: Option<
        Vec<i32>,
    >)
        ensures
            ({
                let signal = match signal_type {
                    MetrologyInsightSignalType::Voltage => self.socket.voltage_signal,
                    MetrologyInsightSignalType::Current => self.socket.current_signal,
                };
                &&& wave.is_some() == (signal.length_cycle >= FFT_RESOLUTION
                    && signal.real_wave@.len() > 0)
                &&& wave.is_some() ==> wave.unwrap()@.len() == FFT_RESOLUTION && forall|i: int|
                    0 <= i < FFT_RESOLUTION ==> #[trigger] wave.unwrap()@[i] == resampled_sample(
                        signal.real_wave@,
                        FFT_RESOLUTION as int,
                        i,
                    )
            }),
    {
        match signal_type {
            MetrologyInsightSignalType::Voltage => harmonics_input(&self.socket.voltage_signal),
            MetrologyInsightSignalType::Current => harmonics_input(&self.socket.current_signal),
        }
    }

    /// Stores the harmonics of the channel of the given kind from the
    /// magnitudes of the spectrum of the wave that `harmonics_request` gave.
    /// This is the last stage of an acquisition.
    pub fn process_harmonics(&mut self, signal_type: MetrologyInsightSignalType, magnitudes: &[u32])
        requires
            old(self).config.is_valid(),
            old(self).socket.wf(),
        ensures
            final(self).config == old(self).config,
            final(self).socket.wf(),
            final(self).socket.phase_angles == old(self).socket.phase_angles,
            final(self).socket.power_metrics == old(self).socket.power_metrics,
            final(self).socket.energy_metrics == old(self).socket.energy_metrics,
            match signal_type {
                MetrologyInsightSignalType::Voltage => {
                    &&& final(self).socket.current_signal == old(self).socket.current_signal
                    &&& harmonics_stored(
                        old(self).socket.voltage_signal,
                        final(self).socket.voltage_signal,
                        magnitudes@,
                        old(self).config.adc_samples_seconds as int,
                        old(self).config.avg_sec as int,
                    )
                },
                MetrologyInsightSignalType::Current => {
                    &&& final(self).socket.voltage_signal == old(self).socket.voltage_signal
                    &&& harmonics_stored(
                        old(self).socket.current_signal,
                        final(self).socket.current_signal,
                        magnitudes@,
                        old(self).config.adc_samples_seconds as int,
                        old(self).config.avg_sec as int,
                    )
                },
            },
    {
        let adc_samples_seconds: u32 = self.config.adc_samples_seconds;
        let avg_sec: u32 = self.config.avg_sec;
        update_harmonics(&mut self.socket, signal_type, magnitudes, adc_samples_seconds, avg_sec);
    }
}

} // verus!
