//! The records that the measurement stages read and fill.

use vstd::prelude::*;
use crate::arith::RATIO_ONE;
use crate::energy::EnergyMetrics;

verus! {

/// Nominal grid frequency of 50 Hz, in millihertz.
pub const FREQ_NOMINAL_50: u32 = 50_000;

/// Nominal grid frequency of 60 Hz, in millihertz.
pub const FREQ_NOMINAL_60: u32 = 60_000;

/// Samples that one acquisition holds on a 50 Hz grid.
pub const ADC_SAMPLES_50HZ_CYCLE: usize = 156;

/// Samples that one acquisition holds on a 60 Hz grid.
pub const ADC_SAMPLES_60HZ_CYCLE: usize = 131;

/// Number of odd harmonics reported, the fundamental included.
pub const NUMBER_HARMONICS: usize = 21;

/// Smallest peak-to-peak amplitude of a usable voltage wave, in ADC counts.
pub const MIN_AMPLITUDE_VOLTAGE: i32 = 80;

/// Smallest peak-to-peak amplitude of a usable current wave, in whole ADC
/// counts: the limit lies below one count, so every current wave meets it.
pub const MIN_AMPLITUDE_CURRENT: i32 = 0;

/// The value of unity for calibration factors, which are given in thousandths.
pub const FACTOR_ONE: u32 = 1000;

/// Configuration of the engine, fixed at start-up.
#[derive(Clone, Copy, Debug)]
pub struct MetrologyInsightConfig {
    /// Smoothing constant of the exponential average, in parts per million.
    pub avg_sec: u32,
    /// Sampling rate of the converter, in millihertz.
    pub adc_samples_seconds: u32,
    /// Samples in one cycle of the grid, in thousandths of a sample.
    pub adc_samples_per_cycle: u32,
    /// Number of harmonics that reports show.
    pub num_harmonics: usize,
}

/// Why the engine cannot run with a configuration.
#[derive(Clone, Copy, Debug, PartialEq, Eq)]
pub enum ConfigurationError {
    /// The smoothing constant is above one.
    SmoothingConstant,
    /// The sampling rate is zero, or so low that a cycle of 60 Hz spans less
    /// than half a sample.
    SamplingRate,
    /// The declared cycle has no samples.
    SamplesPerCycle,
}

impl MetrologyInsightConfig {
    /// What is wrong with this configuration, the first fault of: a
    /// smoothing constant above one, a sampling rate at which a cycle of
    /// 60 Hz spans less than half a sample, a declared cycle without samples.
    pub open spec fn fault(&self) -> Option<ConfigurationError> {
        if self.avg_sec > RATIO_ONE {
            Some(ConfigurationError::SmoothingConstant)
        } else if 2 * self.adc_samples_seconds < FREQ_NOMINAL_60 {
            Some(ConfigurationError::SamplingRate)
        } else if self.adc_samples_per_cycle == 0 {
            Some(ConfigurationError::SamplesPerCycle)
        } else {
            None
        }
    }

    /// A configuration that the engine can run with: one without a fault.
    pub open spec fn is_valid(&self) -> bool {
        &&& self.avg_sec <= RATIO_ONE
        &&& 2 * self.adc_samples_seconds >= FREQ_NOMINAL_60
        &&& self.adc_samples_per_cycle > 0
    }

    /// Checks this configuration and names its first fault.
    pub fn check(&self) -> (result: Result<(), ConfigurationError>)
        ensures
            result == match self.fault() {
                Some(fault) => Err::<(), ConfigurationError>(fault),
                None => Ok::<(), ConfigurationError>(()),
            },
            result.is_ok() == self.is_valid(),
    {
        if self.avg_sec as i64 > RATIO_ONE {
            Err(ConfigurationError::SmoothingConstant)
        } else if self.adc_samples_seconds < FREQ_NOMINAL_60 / 2 {
            Err(ConfigurationError::SamplingRate)
        } else if self.adc_samples_per_cycle == 0 {
            Err(ConfigurationError::SamplesPerCycle)
        } else {
            Ok(())
        }
    }

    /// Tells whether the engine can run with this configuration.
    pub fn validate(&self) -> (ok: bool)
        ensures
            ok == self.is_valid(),
    {
        self.check().is_ok()
    }
}

/// The kind of quantity that a channel carries.
#[derive(Clone, Copy, Debug, PartialEq, Eq)]
pub enum MetrologyInsightSignalType {
    Voltage,
    Current,
}

impl MetrologyInsightSignalType {
    /// The smallest usable peak-to-peak amplitude of this kind, in ADC counts.
    pub open spec fn spec_min_amplitude(self) -> int {
        match self {
            MetrologyInsightSignalType::Voltage => MIN_AMPLITUDE_VOLTAGE as int,
            MetrologyInsightSignalType::Current => MIN_AMPLITUDE_CURRENT as int,
        }
    }

    /// The smallest usable peak-to-peak amplitude of this kind, in ADC counts.
    pub fn min_amplitude(&self) -> (a: i32)
        ensures
            a == self.spec_min_amplitude(),
    {
        match self {
            MetrologyInsightSignalType::Voltage => MIN_AMPLITUDE_VOLTAGE,
            MetrologyInsightSignalType::Current => MIN_AMPLITUDE_CURRENT,
        }
    }
}

impl Default for MetrologyInsightSignalType {
    fn default() -> (t: Self)
        ensures
            t == MetrologyInsightSignalType::Voltage,
    {
        MetrologyInsightSignalType::Voltage
    }
}

/// One acquisition of one channel, with what was measured on it.
#[derive(Clone, Debug)]
pub struct MetrologyInsightSignal {
    /// Raw samples, in ADC counts.
    pub wave: Vec<i32>,
    /// Calibrated samples, in millionths of a volt or ampere.
    pub real_wave: Vec<i32>,
    /// Number of samples of the buffer that are processed.
    pub length: usize,
    /// Number of samples in the whole cycles that `length` holds.
    pub length_cycle: usize,
    /// Whether the frequency is measured on this channel.
    pub calc_freq: bool,
    /// Whether the sensor delivers the derivative of the quantity.
    pub integrate: bool,
    /// Largest calibrated sample seen.
    pub peak: i64,
    /// Smoothed root mean square, in millionths of a volt or ampere.
    pub rms: i64,
    /// Nominal grid frequency, in millihertz.
    pub freq_nominal: u32,
    /// Smoothed zero-crossing frequency, in millihertz.
    pub freq_zc: i64,
    /// Smoothed odd harmonics, in parts per million of the fundamental.
    pub harmonics: [i64; NUMBER_HARMONICS],
    /// Smoothed total harmonic distortion, in parts per million.
    pub thd: i64,
    /// Short-circuit threshold, in ADC counts.
    pub sc_thres: u32,
    /// Kind of the channel.
    pub signal_type: MetrologyInsightSignalType,
    /// Calibration factor, in thousandths of a microvolt or microampere per
    /// ADC count.
    pub adc_factor: u32,
    /// Sensor ratio applied to current channels, in thousandths.
    pub adc_scale: u32,
    /// Offset that was removed from the raw samples of the latest usable
    /// acquisition, in ADC counts.
    pub dc_offset: i32,
}

impl MetrologyInsightSignal {
    /// A signal as it is before anything was acquired: no samples, nothing
    /// measured, a voltage channel on a 50 Hz grid with unit calibration.
    pub open spec fn is_initial(&self) -> bool {
        &&& self.wave@ == Seq::<i32>::empty()
        &&& self.real_wave@ == Seq::<i32>::empty()
        &&& self.length == 0
        &&& self.length_cycle == 0
        &&& !self.calc_freq
        &&& !self.integrate
        &&& self.peak == 0
        &&& self.rms == 0
        &&& self.freq_nominal == FREQ_NOMINAL_50
        &&& self.freq_zc == 0
        &&& forall|i: int| 0 <= i < NUMBER_HARMONICS ==> self.harmonics[i] == 0
        &&& self.thd == 0
        &&& self.sc_thres == 0
        &&& self.signal_type == MetrologyInsightSignalType::Voltage
        &&& self.adc_factor == FACTOR_ONE
        &&& self.adc_scale == FACTOR_ONE
        &&& self.dc_offset == 0
    }

    /// Two signals hold the same samples and the same values.
    pub open spec fn same_as(&self, other: &MetrologyInsightSignal) -> bool {
        &&& self.wave@ == other.wave@
        &&& self.real_wave@ == other.real_wave@
        &&& self.length == other.length
        &&& self.length_cycle == other.length_cycle
        &&& self.calc_freq == other.calc_freq
        &&& self.integrate == other.integrate
        &&& self.peak == other.peak
        &&& self.rms == other.rms
        &&& self.freq_nominal == other.freq_nominal
        &&& self.freq_zc == other.freq_zc
        &&& self.harmonics == other.harmonics
        &&& self.thd == other.thd
        &&& self.sc_thres == other.sc_thres
        &&& self.signal_type == other.signal_type
        &&& self.adc_factor == other.adc_factor
        &&& self.adc_scale == other.adc_scale
        &&& self.dc_offset == other.dc_offset
    }

    /// A copy of this signal.
    pub fn duplicate(&self) -> (copy: MetrologyInsightSignal)
        ensures
            copy.same_as(self),
    {
        MetrologyInsightSignal {
            wave: copy_wave(&self.wave),
            real_wave: copy_wave(&self.real_wave),
            length: self.length,
            length_cycle: self.length_cycle,
            calc_freq: self.calc_freq,
            integrate: self.integrate,
            peak: self.peak,
            rms: self.rms,
            freq_nominal: self.freq_nominal,
            freq_zc: self.freq_zc,
            harmonics: self.harmonics,
            thd: self.thd,
            sc_thres: self.sc_thres,
            signal_type: self.signal_type,
            adc_factor: self.adc_factor,
            adc_scale: self.adc_scale,
            dc_offset: self.dc_offset,
        }
    }

    /// Whether this is a current channel.
    pub fn is_current(&self) -> (b: bool)
        ensures
            b == (self.signal_type == MetrologyInsightSignalType::Current),
    {
        match self.signal_type {
            MetrologyInsightSignalType::Current => true,
            MetrologyInsightSignalType::Voltage => false,
        }
    }
}

impl Default for MetrologyInsightSignal {
    fn default() -> (s: Self)
        ensures
            s.is_initial(),
    {
        MetrologyInsightSignal {
            wave: Vec::new(),
            real_wave: Vec::new(),
            length: 0,
            length_cycle: 0,
            calc_freq: false,
            integrate: false,
            peak: 0,
            rms: 0,
            freq_nominal: FREQ_NOMINAL_50,
            freq_zc: 0,
            harmonics: [0i64; NUMBER_HARMONICS],
            thd: 0,
            sc_thres: 0,
            signal_type: MetrologyInsightSignalType::Voltage,
            adc_factor: FACTOR_ONE,
            adc_scale: FACTOR_ONE,
            dc_offset: 0,
        }
    }
}

/// Which of voltage and current runs ahead of the other.
#[derive(Clone, Copy, Debug, PartialEq, Eq)]
pub enum PhaseDirection {
    /// The current lags the voltage: the angle is positive.
    Inductive,
    /// The current leads the voltage: the angle is negative.
    Capacitive,
    /// No phase difference.
    InPhase,
}

impl Default for PhaseDirection {
    fn default() -> (d: Self)
        ensures
            d == PhaseDirection::InPhase,
    {
        PhaseDirection::InPhase
    }
}

impl PhaseDirection {
    /// The text that describes this direction.
    pub open spec fn description(self) -> Seq<char> {
        match self {
            PhaseDirection::Inductive => "Inductive (current lags voltage)"@,
            PhaseDirection::Capacitive => "Capacitive (current leads voltage)"@,
            PhaseDirection::InPhase => "In phase (no phase difference)"@,
        }
    }

    /// A description of this direction for reports.
    pub fn as_str(&self) -> (s: &'static str)
        ensures
            s@ == self.description(),
    {
        match self {
            PhaseDirection::Inductive => "Inductive (current lags voltage)",
            PhaseDirection::Capacitive => "Capacitive (current leads voltage)",
            PhaseDirection::InPhase => "In phase (no phase difference)",
        }
    }
}

/// Phase angles of one cycle.
#[derive(Clone, Copy, Debug)]
pub struct PhaseAngleMetrics {
    /// Signed angle from current to voltage, in millionths of a degree.
    pub c2v_angle: i64,
    /// Absolute angle of the voltage, in millionths of a degree below 360°.
    pub v_angle: i64,
    /// Absolute angle of the current, in millionths of a degree below 360°.
    pub c_angle: i64,
    /// Direction that the signed angle shows.
    pub direction: PhaseDirection,
}

impl PhaseAngleMetrics {
    /// A description of the direction for reports.
    pub fn direction_description(&self) -> (s: &'static str)
        ensures
            s@ == self.direction.description(),
    {
        self.direction.as_str()
    }
}

impl Default for PhaseAngleMetrics {
    fn default() -> (m: Self)
        ensures
            m.c2v_angle == 0,
            m.v_angle == 0,
            m.c_angle == 0,
            m.direction == PhaseDirection::InPhase,
    {
        PhaseAngleMetrics { c2v_angle: 0, v_angle: 0, c_angle: 0, direction: PhaseDirection::InPhase }
    }
}

/// Powers of one cycle, smoothed.
#[derive(Clone, Copy, Debug)]
pub struct PowerMetrics {
    /// Real power, in picowatts.
    pub real_power: i64,
    /// Reactive power, in picowatts.
    pub reactive_power: i64,
    /// Apparent power, in picowatts.
    pub apparent_power: i64,
    /// Power factor, in parts per million.
    pub power_factor: i64,
}

impl Default for PowerMetrics {
    fn default() -> (m: Self)
        ensures
            m.real_power == 0,
            m.reactive_power == 0,
            m.apparent_power == 0,
            m.power_factor == 0,
    {
        PowerMetrics { real_power: 0, reactive_power: 0, apparent_power: 0, power_factor: 0 }
    }
}

/// The state that lasts from one acquisition to the next: the latest voltage
/// and current signals and what was measured on them.
#[derive(Clone, Debug)]
pub struct MetrologyInsightSocket {
    pub voltage_signal: MetrologyInsightSignal,
    pub current_signal: MetrologyInsightSignal,
    pub phase_angles: PhaseAngleMetrics,
    pub power_metrics: PowerMetrics,
    pub energy_metrics: EnergyMetrics,
}

/// A copy of a wave.
fn copy_wave(wave: &Vec<i32>) -> (copy: Vec<i32>)
    ensures
        copy@ == wave@,
{
    let mut copy: Vec<i32> = Vec::new();
    let mut i: usize = 0;
    while i < wave.len()
        invariant
            i <= wave@.len(),
            copy@ == wave@.take(i as int),
        decreases wave@.len() - i,
    {
        copy.push(wave[i]);
        assert(wave@.take(i as int).push(wave@[i as int]) =~= wave@.take(i + 1));
        i = i + 1;
    }
    assert(wave@.take(wave@.len() as int) =~= wave@);
    copy
}

impl MetrologyInsightSocket {
    /// The state before the first acquisition: both signals as they are
    /// before anything was acquired, and all metrics zero.
    pub open spec fn is_initial(&self) -> bool {
        &&& self.voltage_signal.is_initial()
        &&& self.current_signal.is_initial()
        &&& self.phase_angles.c2v_angle == 0
        &&& self.phase_angles.v_angle == 0
        &&& self.phase_angles.c_angle == 0
        &&& self.phase_angles.direction == PhaseDirection::InPhase
        &&& self.power_metrics.real_power == 0
        &&& self.power_metrics.reactive_power == 0
        &&& self.power_metrics.apparent_power == 0
        &&& self.power_metrics.power_factor == 0
        &&& self.energy_metrics.is_zero()
    }

    /// Two states hold the same signals and the same metrics.
    pub open spec fn same_as(&self, other: &MetrologyInsightSocket) -> bool {
        &&& self.voltage_signal.same_as(&other.voltage_signal)
        &&& self.current_signal.same_as(&other.current_signal)
        &&& self.phase_angles == other.phase_angles
        &&& self.power_metrics == other.power_metrics
        &&& self.energy_metrics == other.energy_metrics
    }

    /// A copy of this state.
    pub fn duplicate(&self) -> (copy: MetrologyInsightSocket)
        ensures
            copy.same_as(self),
    {
        MetrologyInsightSocket {
            voltage_signal: self.voltage_signal.duplicate(),
            current_signal: self.current_signal.duplicate(),
            phase_angles: self.phase_angles,
            power_metrics: self.power_metrics,
            energy_metrics: self.energy_metrics,
        }
    }

    /// What holds of the state between acquisitions: on either channel the
    /// whole cycles are no longer than the processed length, which is no
    /// longer than the wave, and the wave has no more samples than fit 32
    /// bits; the power factor lies between minus one and one; and the energy
    /// sums agree with the registers.
    pub open spec fn wf(&self) -> bool {
        &&& self.voltage_signal.length_cycle <= self.voltage_signal.length
            <= self.voltage_signal.real_wave@.len() <= u32::MAX
        &&& self.current_signal.length_cycle <= self.current_signal.length
            <= self.current_signal.real_wave@.len() <= u32::MAX
        &&& -RATIO_ONE <= self.power_metrics.power_factor <= RATIO_ONE
        &&& self.energy_metrics.wf()
    }
}

impl MetrologyInsightSocket {
    /// Tells whether the state is one that the stages of the pipeline accept.
    pub fn is_well_formed(&self) -> (ok: bool)
        ensures
            ok == self.wf(),
    {
        self.voltage_signal.length_cycle <= self.voltage_signal.length
            && self.voltage_signal.length <= self.voltage_signal.real_wave.len()
            && self.voltage_signal.real_wave.len() <= u32::MAX as usize
            && self.current_signal.length_cycle <= self.current_signal.length
            && self.current_signal.length <= self.current_signal.real_wave.len()
            && self.current_signal.real_wave.len() <= u32::MAX as usize
            && -RATIO_ONE <= self.power_metrics.power_factor && self.power_metrics.power_factor
            <= RATIO_ONE && self.energy_metrics.is_well_formed()
    }
}

impl Default for MetrologyInsightSocket {
    fn default() -> (s: Self)
        ensures
            s.is_initial(),
            s.wf(),
    {
        MetrologyInsightSocket {
            voltage_signal: MetrologyInsightSignal::default(),
            current_signal: MetrologyInsightSignal::default(),
            phase_angles: PhaseAngleMetrics::default(),
            power_metrics: PowerMetrics::default(),
            energy_metrics: EnergyMetrics::default(),
        }
    }
}

} // verus!
