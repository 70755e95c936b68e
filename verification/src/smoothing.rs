//! The single-pole exponential average that steadies every noisy result.

use vstd::prelude::*;
use crate::arith::{div_toward_zero, lemma_fraction_within, RATIO_ONE};

verus! {

/// The state of the average after it took `in_value`: a state of zero takes
/// the value as it is, any other state moves toward the value by the fraction
/// `avg`, given in parts per million, of the distance.
pub open spec fn smoothed(in_value: int, state: int, avg: int) -> int {
    if state == 0 {
        in_value
    } else {
        state + div_toward_zero(avg * (in_value - state), RATIO_ONE as int)
    }
}

/// The smoothed state lies between the old state and the new value, so the
/// average never overshoots.
pub proof fn lemma_smoothed_between(in_value: int, state: int, avg: int)
    requires
        0 <= avg <= RATIO_ONE,
    ensures
        state <= in_value ==> state <= smoothed(in_value, state, avg) <= in_value,
        in_value <= state ==> in_value <= smoothed(in_value, state, avg) <= state,
{
    lemma_fraction_within(avg, RATIO_ONE as int, in_value - state);
}

/// Feeds `in_value` to the exponential average held in `out_value`, with the
/// smoothing constant `avg` in parts per million.
pub fn update_average(in_value: i64, out_value: &mut i64, avg: u32)
    requires
        avg <= RATIO_ONE,
    ensures
        *final(out_value) == smoothed(in_value as int, *old(out_value) as int, avg as int),
{
    if *out_value == 0 {
        *out_value = in_value;
    } else {
        let state: i128 = *out_value as i128;
        let distance: i128 = in_value as i128 - state;
        assert(-0x1_0000_0000_0000_0000 * 1_000_000 <= avg * distance <= 0x1_0000_0000_0000_0000
            * 1_000_000) by (nonlinear_arith)
            requires
                0 <= avg <= 1_000_000,
                -0x1_0000_0000_0000_0000 <= distance <= 0x1_0000_0000_0000_0000,
        ;
        let step: i128 = (avg as i128 * distance) / (RATIO_ONE as i128);
        proof {
            lemma_fraction_within(avg as int, RATIO_ONE as int, distance as int);
        }
        *out_value = (state + step) as i64;
    }
}

} // verus!
