//! Energy registers by quadrant. Each acquisition adds the magnitude of its
//! active and of its reactive energy to the register of the quadrant that the
//! signs of real and reactive power select; the registers never decrease.
//! Energies are in nanowatt-hours.

use vstd::prelude::*;
use crate::types::MetrologyInsightSocket;

verus! {

/// Seconds in an hour: divides watt-seconds into watt-hours.
pub const SECONDS_PER_HOUR: u64 = 3600;

/// One of the four sign combinations of real and reactive power.
#[derive(Clone, Copy, Debug, PartialEq, Eq)]
pub enum Quadrant {
    /// Real power positive, reactive power positive.
    Q1,
    /// Real power negative, reactive power positive.
    Q2,
    /// Real power negative, reactive power negative.
    Q3,
    /// Real power positive, reactive power negative.
    Q4,
}

/// Active energy by quadrant, with the sums derived from the registers.
#[derive(Clone, Copy, Debug)]
pub struct ActiveEnergyMetrics {
    /// Energy taken from the grid: first and fourth quadrant.
    pub imported: u128,
    /// Energy given to the grid: second and third quadrant.
    pub exported: u128,
    /// Imported less exported energy.
    pub balance: i128,
    pub q1: u64,
    pub q2: u64,
    pub q3: u64,
    pub q4: u64,
}

/// Reactive energy by quadrant, with the sums derived from the registers.
#[derive(Clone, Copy, Debug)]
pub struct ReactiveEnergyMetrics {
    /// Energy of the second and fourth quadrant.
    pub capacitive: u128,
    /// Energy of the first and third quadrant.
    pub inductive: u128,
    /// Energy of the first two less that of the last two quadrants.
    pub balance: i128,
    pub q1: u64,
    pub q2: u64,
    pub q3: u64,
    pub q4: u64,
}

/// Active and reactive energy.
#[derive(Clone, Copy, Debug)]
pub struct EnergyMetrics {
    pub active: ActiveEnergyMetrics,
    pub reactive: ReactiveEnergyMetrics,
}

/// The quadrant of a pair of powers; none when either power is zero.
pub open spec fn quadrant_of(real_power: int, reactive_power: int) -> Option<Quadrant> {
    if real_power > 0 && reactive_power > 0 {
        Some(Quadrant::Q1)
    } else if real_power > 0 && reactive_power < 0 {
        Some(Quadrant::Q4)
    } else if real_power < 0 && reactive_power > 0 {
        Some(Quadrant::Q2)
    } else if real_power < 0 && reactive_power < 0 {
        Some(Quadrant::Q3)
    } else {
        None
    }
}

/// The magnitude of the energy, in nanowatt-hours, of `power` picowatts over
/// `sample_count` samples at the sampling rate `adc_samples_second` in
/// millihertz, rounded down: power times elapsed time, and the elapsed time
/// is the number of samples divided by the sampling rate.
pub open spec fn energy_magnitude(power: int, sample_count: int, adc_samples_second: int) -> int {
    let magnitude = if power < 0 {
        -power
    } else {
        power
    };
    (magnitude * sample_count) / (adc_samples_second * SECONDS_PER_HOUR)
}

/// A register after `energy` was added: the sum, held at the largest value of
/// a register.
pub open spec fn register_plus(register: u64, energy: int) -> u64 {
    if register + energy > u64::MAX {
        u64::MAX
    } else {
        (register + energy) as u64
    }
}

/// The register `quadrant` after an acquisition that falls into `target` and
/// carries `energy`.
pub open spec fn routed(register: u64, quadrant: Quadrant, target: Option<Quadrant>, energy: int) -> u64 {
    if target == Some(quadrant) {
        register_plus(register, energy)
    } else {
        register
    }
}

impl ActiveEnergyMetrics {
    /// Imported energy: the sum of the first and the fourth quadrant.
    pub open spec fn spec_imported(&self) -> int {
        self.q1 + self.q4
    }

    /// Exported energy: the sum of the second and the third quadrant.
    pub open spec fn spec_exported(&self) -> int {
        self.q2 + self.q3
    }

    /// Imported less exported energy.
    pub open spec fn spec_balance(&self) -> int {
        self.spec_imported() - self.spec_exported()
    }

    /// The derived sums agree with the registers.
    pub open spec fn wf(&self) -> bool {
        &&& self.imported == self.spec_imported()
        &&& self.exported == self.spec_exported()
        &&& self.balance == self.imported - self.exported
    }

    /// These registers after `energy` was added to the one of `target`, with
    /// the sums derived anew.
    pub open spec fn plus(self, target: Option<Quadrant>, energy: int) -> ActiveEnergyMetrics {
        let q1 = routed(self.q1, Quadrant::Q1, target, energy);
        let q2 = routed(self.q2, Quadrant::Q2, target, energy);
        let q3 = routed(self.q3, Quadrant::Q3, target, energy);
        let q4 = routed(self.q4, Quadrant::Q4, target, energy);
        ActiveEnergyMetrics {
            imported: (q1 + q4) as u128,
            exported: (q2 + q3) as u128,
            balance: ((q1 + q4) - (q2 + q3)) as i128,
            q1,
            q2,
            q3,
            q4,
        }
    }

    /// Imported energy: the sum of the first and the fourth quadrant.
    pub fn imported(&self) -> (e: u128)
        ensures
            e == self.spec_imported(),
    {
        self.q1 as u128 + self.q4 as u128
    }

    /// Exported energy: the sum of the second and the third quadrant.
    pub fn exported(&self) -> (e: u128)
        ensures
            e == self.spec_exported(),
    {
        self.q2 as u128 + self.q3 as u128
    }

    /// Imported less exported energy.
    pub fn balance(&self) -> (e: i128)
        ensures
            e == self.spec_balance(),
    {
        self.imported() as i128 - self.exported() as i128
    }
}

impl ReactiveEnergyMetrics {
    /// Inductive energy: the sum of the first and the third quadrant.
    pub open spec fn spec_inductive(&self) -> int {
        self.q1 + self.q3
    }

    /// Capacitive energy: the sum of the second and the fourth quadrant.
    pub open spec fn spec_capacitive(&self) -> int {
        self.q2 + self.q4
    }

    /// Energy of the first two less that of the last two quadrants.
    pub open spec fn spec_balance(&self) -> int {
        (self.q1 + self.q2) - (self.q3 + self.q4)
    }

    /// The derived sums agree with the registers.
    pub open spec fn wf(&self) -> bool {
        &&& self.inductive == self.spec_inductive()
        &&& self.capacitive == self.spec_capacitive()
        &&& self.balance == self.spec_balance()
    }

    /// These registers after `energy` was added to the one of `target`, with
    /// the sums derived anew.
    pub open spec fn plus(self, target: Option<Quadrant>, energy: int) -> ReactiveEnergyMetrics {
        let q1 = routed(self.q1, Quadrant::Q1, target, energy);
        let q2 = routed(self.q2, Quadrant::Q2, target, energy);
        let q3 = routed(self.q3, Quadrant::Q3, target, energy);
        let q4 = routed(self.q4, Quadrant::Q4, target, energy);
        ReactiveEnergyMetrics {
            capacitive: (q2 + q4) as u128,
            inductive: (q1 + q3) as u128,
            balance: ((q1 + q2) - (q3 + q4)) as i128,
            q1,
            q2,
            q3,
            q4,
        }
    }

    /// Inductive energy: the sum of the first and the third quadrant.
    pub fn inductive(&self) -> (e: u128)
        ensures
            e == self.spec_inductive(),
    {
        self.q1 as u128 + self.q3 as u128
    }

    /// Capacitive energy: the sum of the second and the fourth quadrant.
    pub fn capacitive(&self) -> (e: u128)
        ensures
            e == self.spec_capacitive(),
    {
        self.q2 as u128 + self.q4 as u128
    }

    /// Energy of the first two less that of the last two quadrants.
    pub fn balance(&self) -> (e: i128)
        ensures
            e == self.spec_balance(),
    {
        (self.q1 as i128 + self.q2 as i128) - (self.q3 as i128 + self.q4 as i128)
    }
}

impl EnergyMetrics {
    /// The derived sums agree with the registers.
    pub open spec fn wf(&self) -> bool {
        self.active.wf() && self.reactive.wf()
    }

    /// Tells whether the derived sums agree with the registers.
    pub fn is_well_formed(&self) -> (ok: bool)
        ensures
            ok == self.wf(),
    {
        self.active.imported == self.active.imported() && self.active.exported
            == self.active.exported() && self.active.balance == self.active.balance()
            && self.reactive.inductive == self.reactive.inductive() && self.reactive.capacitive
            == self.reactive.capacitive() && self.reactive.balance == self.reactive.balance()
    }

    /// No energy was registered yet.
    pub open spec fn is_zero(&self) -> bool {
        &&& self.active.q1 == 0 && self.active.q2 == 0
        &&& self.active.q3 == 0 && self.active.q4 == 0
        &&& self.reactive.q1 == 0 && self.reactive.q2 == 0
        &&& self.reactive.q3 == 0 && self.reactive.q4 == 0
        &&& self.wf()
    }

    /// The metrics after one acquisition with the given powers, in picowatts,
    /// over `sample_count` samples at the sampling rate `adc_samples_second`.
    pub open spec fn accumulated(
        self,
        real_power: int,
        reactive_power: int,
        sample_count: int,
        adc_samples_second: int,
    ) -> EnergyMetrics {
        let target = quadrant_of(real_power, reactive_power);
        EnergyMetrics {
            active: self.active.plus(
                target,
                energy_magnitude(real_power, sample_count, adc_samples_second),
            ),
            reactive: self.reactive.plus(
                target,
                energy_magnitude(reactive_power, sample_count, adc_samples_second),
            ),
        }
    }

    /// The metrics after a series of acquisitions, each given by its real
    /// power, its reactive power and its number of samples.
    pub open spec fn accumulated_all(
        self,
        cycles: Seq<(int, int, int)>,
        adc_samples_second: int,
    ) -> EnergyMetrics
        decreases cycles.len(),
    {
        if cycles.len() == 0 {
            self
        } else {
            let last = cycles.last();
            self.accumulated_all(cycles.drop_last(), adc_samples_second).accumulated(
                last.0,
                last.1,
                last.2,
                adc_samples_second,
            )
        }
    }

    /// Adds the energy of one acquisition: the magnitude of the active energy
    /// goes to the active register, that of the reactive energy to the
    /// reactive register, of the quadrant that the signs of the two powers
    /// select. With a power of zero no register changes. The sums are then
    /// derived anew from the registers. A register that is full stays at its
    /// largest value.
    pub fn accumulate(
        &mut self,
        real_power: i64,
        reactive_power: i64,
        sample_count: usize,
        adc_samples_second: u32,
    )
        requires
            adc_samples_second > 0,
        ensures
            *final(self) == old(self).accumulated(
                real_power as int,
                reactive_power as int,
                sample_count as int,
                adc_samples_second as int,
            ),
            final(self).wf(),
    {
        let active_energy: u128 = energy_of(real_power, sample_count, adc_samples_second);
        let reactive_energy: u128 = energy_of(reactive_power, sample_count, adc_samples_second);
        match energy_quadrant(real_power, reactive_power) {
            Some(Quadrant::Q1) => {
                self.active.q1 = add_to_register(self.active.q1, active_energy);
                self.reactive.q1 = add_to_register(self.reactive.q1, reactive_energy);
            },
            Some(Quadrant::Q2) => {
                self.active.q2 = add_to_register(self.active.q2, active_energy);
                self.reactive.q2 = add_to_register(self.reactive.q2, reactive_energy);
            },
            Some(Quadrant::Q3) => {
                self.active.q3 = add_to_register(self.active.q3, active_energy);
                self.reactive.q3 = add_to_register(self.reactive.q3, reactive_energy);
            },
            Some(Quadrant::Q4) => {
                self.active.q4 = add_to_register(self.active.q4, active_energy);
                self.reactive.q4 = add_to_register(self.reactive.q4, reactive_energy);
            },
            None => {},
        }
        self.derive_sums();
    }

    /// Derives the sums anew from the registers.
    pub fn derive_sums(&mut self)
        ensures
            final(self).wf(),
            final(self).active.q1 == old(self).active.q1,
            final(self).active.q2 == old(self).active.q2,
            final(self).active.q3 == old(self).active.q3,
            final(self).active.q4 == old(self).active.q4,
            final(self).reactive.q1 == old(self).reactive.q1,
            final(self).reactive.q2 == old(self).reactive.q2,
            final(self).reactive.q3 == old(self).reactive.q3,
            final(self).reactive.q4 == old(self).reactive.q4,
    {
        self.active.imported = self.active.imported();
        self.active.exported = self.active.exported();
        self.active.balance = self.active.balance();
        self.reactive.inductive = self.reactive.inductive();
        self.reactive.capacitive = self.reactive.capacitive();
        self.reactive.balance = self.reactive.balance();
    }
}

impl Default for ActiveEnergyMetrics {
    fn default() -> (m: Self)
        ensures
            m.q1 == 0 && m.q2 == 0 && m.q3 == 0 && m.q4 == 0,
            m.wf(),
    {
        ActiveEnergyMetrics { imported: 0, exported: 0, balance: 0, q1: 0, q2: 0, q3: 0, q4: 0 }
    }
}

impl Default for ReactiveEnergyMetrics {
    fn default() -> (m: Self)
        ensures
            m.q1 == 0 && m.q2 == 0 && m.q3 == 0 && m.q4 == 0,
            m.wf(),
    {
        ReactiveEnergyMetrics { capacitive: 0, inductive: 0, balance: 0, q1: 0, q2: 0, q3: 0, q4: 0 }
    }
}

impl Default for EnergyMetrics {
    fn default() -> (m: Self)
        ensures
            m.is_zero(),
    {
        EnergyMetrics { active: ActiveEnergyMetrics::default(), reactive: ReactiveEnergyMetrics::default() }
    }
}

/// The quadrant that a pair of powers falls into; none when either is zero.
pub fn energy_quadrant(real_power: i64, reactive_power: i64) -> (quadrant: Option<Quadrant>)
    ensures
        quadrant == quadrant_of(real_power as int, reactive_power as int),
{
    if real_power > 0 && reactive_power > 0 {
        Some(Quadrant::Q1)
    } else if real_power > 0 && reactive_power < 0 {
        Some(Quadrant::Q4)
    } else if real_power < 0 && reactive_power > 0 {
        Some(Quadrant::Q2)
    } else if real_power < 0 && reactive_power < 0 {
        Some(Quadrant::Q3)
    } else {
        None
    }
}

/// The magnitude of the energy, in nanowatt-hours, that `power` picowatts
/// deliver over `sample_count` samples at the sampling rate
/// `adc_samples_second` in millihertz.
pub fn energy_of(power: i64, sample_count: usize, adc_samples_second: u32) -> (energy: u128)
    requires
        adc_samples_second > 0,
    ensures
        energy == energy_magnitude(power as int, sample_count as int, adc_samples_second as int),
{
    let magnitude: u128 = if power < 0 {
        (-(power as i128)) as u128
    } else {
        power as u128
    };
    assert(magnitude * sample_count <= 0x8000_0000_0000_0000 * 0xffff_ffff_ffff_ffff)
        by (nonlinear_arith)
        requires
            0 <= magnitude <= 0x8000_0000_0000_0000,
            0 <= sample_count <= 0xffff_ffff_ffff_ffff,
    ;
    let hour: u128 = SECONDS_PER_HOUR as u128;
    assert(hour == 3600);
    let divisor: u128 = adc_samples_second as u128 * hour;
    (magnitude * sample_count as u128) / divisor
}

/// Adds an energy to a register, which stays at its largest value when full.
fn add_to_register(register: u64, energy: u128) -> (sum: u64)
    ensures
        sum == register_plus(register, energy as int),
{
    if energy > (u64::MAX - register) as u128 {
        u64::MAX
    } else {
        register + energy as u64
    }
}

/// No register ever decreases, whatever the acquisition.
pub proof fn lemma_registers_never_decrease(
    m: EnergyMetrics,
    real_power: int,
    reactive_power: int,
    sample_count: int,
    adc_samples_second: int,
)
    requires
        sample_count >= 0,
        adc_samples_second > 0,
    ensures
        ({
            let n = m.accumulated(real_power, reactive_power, sample_count, adc_samples_second);
            &&& n.active.q1 >= m.active.q1
            &&& n.active.q2 >= m.active.q2
            &&& n.active.q3 >= m.active.q3
            &&& n.active.q4 >= m.active.q4
            &&& n.reactive.q1 >= m.reactive.q1
            &&& n.reactive.q2 >= m.reactive.q2
            &&& n.reactive.q3 >= m.reactive.q3
            &&& n.reactive.q4 >= m.reactive.q4
        }),
{
    lemma_energy_magnitude_not_negative(real_power, sample_count, adc_samples_second);
    lemma_energy_magnitude_not_negative(reactive_power, sample_count, adc_samples_second);
}

/// The energy of an acquisition is never negative.
pub proof fn lemma_energy_magnitude_not_negative(
    power: int,
    sample_count: int,
    adc_samples_second: int,
)
    requires
        sample_count >= 0,
        adc_samples_second > 0,
    ensures
        energy_magnitude(power, sample_count, adc_samples_second) >= 0,
{
    let magnitude: int = if power < 0 {
        -power
    } else {
        power
    };
    assert((magnitude * sample_count) / (adc_samples_second * SECONDS_PER_HOUR) >= 0)
        by (nonlinear_arith)
        requires
            magnitude >= 0,
            sample_count >= 0,
            adc_samples_second > 0,
            SECONDS_PER_HOUR == 3600,
    ;
}

/// After any series of acquisitions every register is at least what it was
/// before the series.
pub proof fn lemma_registers_never_decrease_over_series(
    m: EnergyMetrics,
    cycles: Seq<(int, int, int)>,
    adc_samples_second: int,
)
    requires
        adc_samples_second > 0,
        forall|i: int| 0 <= i < cycles.len() ==> (#[trigger] cycles[i]).2 >= 0,
    ensures
        ({
            let n = m.accumulated_all(cycles, adc_samples_second);
            &&& n.active.q1 >= m.active.q1
            &&& n.active.q2 >= m.active.q2
            &&& n.active.q3 >= m.active.q3
            &&& n.active.q4 >= m.active.q4
            &&& n.reactive.q1 >= m.reactive.q1
            &&& n.reactive.q2 >= m.reactive.q2
            &&& n.reactive.q3 >= m.reactive.q3
            &&& n.reactive.q4 >= m.reactive.q4
        }),
    decreases cycles.len(),
{
    if cycles.len() > 0 {
        let last = cycles.last();
        let before = m.accumulated_all(cycles.drop_last(), adc_samples_second);
        lemma_registers_never_decrease_over_series(m, cycles.drop_last(), adc_samples_second);
        lemma_registers_never_decrease(before, last.0, last.1, last.2, adc_samples_second);
    }
}

/// An acquisition with two powers other than zero falls into exactly one
/// quadrant: the active and the reactive register of that quadrant take the
/// energy, and the six other registers stay as they are. An acquisition with
/// a power of zero changes no register.
pub proof fn lemma_one_quadrant_per_acquisition(
    m: EnergyMetrics,
    real_power: int,
    reactive_power: int,
    sample_count: int,
    adc_samples_second: int,
)
    ensures
        ({
            let n = m.accumulated(real_power, reactive_power, sample_count, adc_samples_second);
            let active = energy_magnitude(real_power, sample_count, adc_samples_second);
            let reactive = energy_magnitude(reactive_power, sample_count, adc_samples_second);
            let target = quadrant_of(real_power, reactive_power);
            &&& (real_power != 0 && reactive_power != 0) <==> target.is_some()
            &&& n.active.q1 == if target == Some(Quadrant::Q1) {
                register_plus(m.active.q1, active)
            } else {
                m.active.q1
            }
            &&& n.active.q2 == if target == Some(Quadrant::Q2) {
                register_plus(m.active.q2, active)
            } else {
                m.active.q2
            }
            &&& n.active.q3 == if target == Some(Quadrant::Q3) {
                register_plus(m.active.q3, active)
            } else {
                m.active.q3
            }
            &&& n.active.q4 == if target == Some(Quadrant::Q4) {
                register_plus(m.active.q4, active)
            } else {
                m.active.q4
            }
            &&& n.reactive.q1 == if target == Some(Quadrant::Q1) {
                register_plus(m.reactive.q1, reactive)
            } else {
                m.reactive.q1
            }
            &&& n.reactive.q2 == if target == Some(Quadrant::Q2) {
                register_plus(m.reactive.q2, reactive)
            } else {
                m.reactive.q2
            }
            &&& n.reactive.q3 == if target == Some(Quadrant::Q3) {
                register_plus(m.reactive.q3, reactive)
            } else {
                m.reactive.q3
            }
            &&& n.reactive.q4 == if target == Some(Quadrant::Q4) {
                register_plus(m.reactive.q4, reactive)
            } else {
                m.reactive.q4
            }
        }),
{
}

/// After every acquisition the sums are those of the registers, whatever the
/// sums were before: the active balance is imported less exported energy, and
/// the reactive balance is the first two less the last two quadrants.
pub proof fn lemma_sums_follow_registers(
    m: EnergyMetrics,
    real_power: int,
    reactive_power: int,
    sample_count: int,
    adc_samples_second: int,
)
    ensures
        ({
            let n = m.accumulated(real_power, reactive_power, sample_count, adc_samples_second);
            &&& n.active.imported == n.active.q1 + n.active.q4
            &&& n.active.exported == n.active.q2 + n.active.q3
            &&& n.active.balance == n.active.imported - n.active.exported
            &&& n.reactive.inductive == n.reactive.q1 + n.reactive.q3
            &&& n.reactive.capacitive == n.reactive.q2 + n.reactive.q4
            &&& n.reactive.balance == (n.reactive.q1 + n.reactive.q2) - (n.reactive.q3
                + n.reactive.q4)
            &&& n.wf()
        }),
{
}

/// Adds the energy of the acquisition that the socket holds to the registers
/// of its quadrant: the powers are those of the socket, and the elapsed time
/// is that of the samples of the voltage wave at the sampling rate
/// `adc_samples_second`. The sums are left as they are.
pub fn calculate_energy_by_cuadrant(socket: &mut MetrologyInsightSocket, adc_samples_second: u32)
    requires
        adc_samples_second > 0,
    ensures
        ({
            let after = old(socket).energy_metrics.accumulated(
                old(socket).power_metrics.real_power as int,
                old(socket).power_metrics.reactive_power as int,
                old(socket).voltage_signal.real_wave@.len() as int,
                adc_samples_second as int,
            );
            let stored = final(socket).energy_metrics;
            &&& stored.active.q1 == after.active.q1
            &&& stored.active.q2 == after.active.q2
            &&& stored.active.q3 == after.active.q3
            &&& stored.active.q4 == after.active.q4
            &&& stored.reactive.q1 == after.reactive.q1
            &&& stored.reactive.q2 == after.reactive.q2
            &&& stored.reactive.q3 == after.reactive.q3
            &&& stored.reactive.q4 == after.reactive.q4
        }),
        final(socket).energy_metrics.active.imported == old(socket).energy_metrics.active.imported,
        final(socket).energy_metrics.active.exported == old(socket).energy_metrics.active.exported,
        final(socket).energy_metrics.active.balance == old(socket).energy_metrics.active.balance,
        final(socket).energy_metrics.reactive.inductive == old(socket).energy_metrics.reactive.inductive,
        final(socket).energy_metrics.reactive.capacitive == old(socket).energy_metrics.reactive.capacitive,
        final(socket).energy_metrics.reactive.balance == old(socket).energy_metrics.reactive.balance,
        final(socket).voltage_signal == old(socket).voltage_signal,
        final(socket).current_signal == old(socket).current_signal,
        final(socket).phase_angles == old(socket).phase_angles,
        final(socket).power_metrics == old(socket).power_metrics,
{
    let real_power: i64 = socket.power_metrics.real_power;
    let reactive_power: i64 = socket.power_metrics.reactive_power;
    let sample_count: usize = socket.voltage_signal.real_wave.len();
    let mut metrics: EnergyMetrics = socket.energy_metrics;
    metrics.accumulate(real_power, reactive_power, sample_count, adc_samples_second);
    metrics.active.imported = socket.energy_metrics.active.imported;
    metrics.active.exported = socket.energy_metrics.active.exported;
    metrics.active.balance = socket.energy_metrics.active.balance;
    metrics.reactive.inductive = socket.energy_metrics.reactive.inductive;
    metrics.reactive.capacitive = socket.energy_metrics.reactive.capacitive;
    metrics.reactive.balance = socket.energy_metrics.reactive.balance;
    socket.energy_metrics = metrics;
}

/// Derives the energy sums of the socket anew from its registers: imported,
/// exported, inductive and capacitive energy and the two balances.
pub fn calculate_energy(socket: &mut MetrologyInsightSocket)
    ensures
        final(socket).energy_metrics.wf(),
        final(socket).energy_metrics.active.q1 == old(socket).energy_metrics.active.q1,
        final(socket).energy_metrics.active.q2 == old(socket).energy_metrics.active.q2,
        final(socket).energy_metrics.active.q3 == old(socket).energy_metrics.active.q3,
        final(socket).energy_metrics.active.q4 == old(socket).energy_metrics.active.q4,
        final(socket).energy_metrics.reactive.q1 == old(socket).energy_metrics.reactive.q1,
        final(socket).energy_metrics.reactive.q2 == old(socket).energy_metrics.reactive.q2,
        final(socket).energy_metrics.reactive.q3 == old(socket).energy_metrics.reactive.q3,
        final(socket).energy_metrics.reactive.q4 == old(socket).energy_metrics.reactive.q4,
        final(socket).voltage_signal == old(socket).voltage_signal,
        final(socket).current_signal == old(socket).current_signal,
        final(socket).phase_angles == old(socket).phase_angles,
        final(socket).power_metrics == old(socket).power_metrics,
{
    let mut metrics: EnergyMetrics = socket.energy_metrics;
    metrics.derive_sums();
    socket.energy_metrics = metrics;
}

/// Adds the energy of the acquisition that the socket holds to its energy
/// metrics: the registers of the quadrant of its powers take the energy, and
/// the sums are derived anew.
pub fn update_total_energy(socket: &mut MetrologyInsightSocket, adc_samples_second: u32)
    requires
        adc_samples_second > 0,
    ensures
        final(socket).energy_metrics == old(socket).energy_metrics.accumulated(
            old(socket).power_metrics.real_power as int,
            old(socket).power_metrics.reactive_power as int,
            old(socket).voltage_signal.real_wave@.len() as int,
            adc_samples_second as int,
        ),
        final(socket).energy_metrics.wf(),
        final(socket).voltage_signal == old(socket).voltage_signal,
        final(socket).current_signal == old(socket).current_signal,
        final(socket).phase_angles == old(socket).phase_angles,
        final(socket).power_metrics == old(socket).power_metrics,
{
    calculate_energy_by_cuadrant(socket, adc_samples_second);
    calculate_energy(socket);
}

} // verus!
