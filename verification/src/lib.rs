//! Fixed-point power metrology for one electrical phase.
//!
//! From the raw samples of a voltage and a current channel the engine derives
//! frequency, root mean square, real, reactive and apparent power, power
//! factor, phase angles, energy by quadrant and harmonic content, once per
//! acquisition, and keeps smoothed values from one acquisition to the next.
//!
//! Every quantity is an integer in a documented unit: frequencies and sample
//! rates in millihertz, waveform samples in millionths of a volt or ampere,
//! powers in picowatts, ratios in parts per million, angles in millionths of
//! a degree and energies in nanowatt-hours. What has no integer form, the arc
//! cosine behind the signed phase angle and the transform behind the
//! harmonics, is evaluated by the caller between the stages.

pub mod arith;
pub mod conditioning;
pub mod energy;
pub mod frequency;
pub mod harmonics;
pub mod integration;
pub mod phase;
pub mod power;
pub mod processing;
pub mod short_circuit;
pub mod smoothing;
pub mod types;

pub use crate::conditioning::{
    convert_raw_to_physical, is_signal_valid, moving_average, remove_signal_offset,
};
pub use crate::energy::{
    calculate_energy, calculate_energy_by_cuadrant, update_total_energy, ActiveEnergyMetrics,
    EnergyMetrics, Quadrant, ReactiveEnergyMetrics,
};
pub use crate::frequency::{
    calculate_nominal_frequency, calculate_zero_crossing_frequency, is_frequency_in_tolerance,
    limit_length_to_cycles,
};
pub use crate::harmonics::{
    calculate_harmonics_and_thd, compute_harmonics_and_thd, resample_signal, update_harmonics,
    FFT_RESOLUTION,
};
pub use crate::integration::signal_integrate;
pub use crate::phase::{
    all_phase_angles_from_signals, phase_angle_from_pf_and_react_power,
    phase_cosine_from_signals, power_factor_cosine, update_phase_angles,
};
pub use crate::power::{
    calculate_all_power_metrics, calculate_rms, calculate_signal_power, update_power_metrics,
};
pub use crate::processing::{process_signal, MetrologyInsight};
pub use crate::short_circuit::{optimal_abs, short_circuit};
pub use crate::smoothing::update_average;
pub use crate::types::{
    ConfigurationError, MetrologyInsightConfig, MetrologyInsightSignal,
    MetrologyInsightSignalType, MetrologyInsightSocket, PhaseAngleMetrics, PhaseDirection,
    PowerMetrics,
};
