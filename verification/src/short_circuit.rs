//! Short-circuit threshold of a current wave: the magnitude that all but the
//! ten smallest samples of one cycle reach.

use vstd::prelude::*;
use vstd::relations::{sorted_by, total_ordering};
use vstd::seq_lib::{lemma_sorted_unique, to_multiset_update};
use crate::types::ADC_SAMPLES_50HZ_CYCLE;

verus! {

/// Samples that five milliseconds hold: the rank, counted from zero, of the
/// magnitude that is taken as the threshold.
pub const ADC_SAMPLES_5_MS: usize = 10;

/// The magnitude of a sample.
pub open spec fn magnitude(value: i32) -> int {
    if value < 0 {
        -(value as int)
    } else {
        value as int
    }
}

/// The magnitudes of the first `n` samples of a wave.
pub open spec fn magnitudes(s: Seq<i32>, n: int) -> Seq<u32> {
    Seq::new(n as nat, |i: int| magnitude(s[i]) as u32)
}

/// The order of magnitudes.
pub open spec fn at_most() -> spec_fn(u32, u32) -> bool {
    |a: u32, b: u32| a <= b
}

/// Number of samples that the threshold is taken from: `length`, as far as
/// the wave reaches.
pub open spec fn ranked_samples(s: Seq<i32>, length: int) -> int {
    if length <= s.len() {
        length
    } else {
        s.len() as int
    }
}

/// The short-circuit threshold of the first `length` samples of a wave: the
/// magnitude of rank `ADC_SAMPLES_5_MS` among them in ascending order, and
/// zero when `length` exceeds one cycle.
pub open spec fn short_circuit_threshold(s: Seq<i32>, length: int) -> int {
    if length > ADC_SAMPLES_50HZ_CYCLE {
        0
    } else {
        magnitudes(s, ranked_samples(s, length)).sort_by(at_most())[ADC_SAMPLES_5_MS as int] as int
    }
}

/// The magnitude of a sample, computed without a branch: the sign, spread
/// over all bits, is folded into the value and then taken off again.
pub fn optimal_abs(value: i32) -> (m: u32)
    ensures
        m == magnitude(value),
{
    let mask: i32 = value >> 31;
    let flipped: i32 = value ^ mask;
    let folded: i32 = flipped.wrapping_sub(mask);
    proof {
        assert(value >= 0 ==> value >> 31 == 0) by (bit_vector);
        assert(value < 0 ==> value >> 31 == -1i32) by (bit_vector);
        assert(value ^ 0 == value) by (bit_vector);
        assert(value ^ -1i32 == -value - 1) by (bit_vector);
        assert((-0x8000_0000i32) as u32 == 0x8000_0000u32) by (bit_vector);
    }
    #[verifier::truncate]
    (folded as u32)
}

/// A sequence with two of its elements exchanged has the elements that it
/// had before.
proof fn lemma_swap_keeps_multiset(s: Seq<u32>, i: int, j: int)
    requires
        0 <= i < s.len(),
        0 <= j < s.len(),
    ensures
        s.update(i, s[j]).update(j, s[i]).to_multiset() == s.to_multiset(),
{
    broadcast use vstd::multiset::group_multiset_axioms;

    let between: Seq<u32> = s.update(i, s[j]);
    let after: Seq<u32> = between.update(j, s[i]);
    to_multiset_update(s, i, s[j]);
    to_multiset_update(between, j, s[i]);
    s.to_multiset_ensures();
    assert(s.contains(s[i]));
    assert(s.contains(s[j]));
    let m = s.to_multiset();
    assert(m.count(s[i]) > 0);
    assert(m.count(s[j]) > 0);
    assert(between.to_multiset() == m.insert(s[j]).remove(s[i]));
    if i == j {
        assert(after =~= s);
    } else {
        assert(between[j] == s[j]);
        assert(after.to_multiset() == m.insert(s[j]).remove(s[i]).insert(s[i]).remove(s[j]));
        assert forall|x: u32| after.to_multiset().count(x) == m.count(x) by {
            let m1 = m.insert(s[j]);
            let m2 = m1.remove(s[i]);
            let m3 = m2.insert(s[i]);
            let m4 = m3.remove(s[j]);
            assert(m1.count(s[i]) > 0);
            assert(m3.count(s[j]) > 0);
        }
        assert(after.to_multiset() =~= m);
    }
}

/// Sorts magnitudes in ascending order.
fn sort_ascending(v: &mut Vec<u32>)
    ensures
        final(v)@.len() == old(v)@.len(),
        sorted_by(final(v)@, at_most()),
        final(v)@.to_multiset() == old(v)@.to_multiset(),
{
    let n: usize = v.len();
    let mut i: usize = 1;
    while i < n
        invariant
            v@.len() == n,
            1 <= i,
            forall|a: int, b: int| 0 <= a < b < i && b < n ==> v@[a] <= v@[b],
            v@.to_multiset() == old(v)@.to_multiset(),
        decreases n - i,
    {
        let mut j: usize = i;
        while j > 0 && v[j - 1] > v[j]
            invariant
                v@.len() == n,
                j <= i < n,
                forall|a: int, b: int| 0 <= a < b <= i && a != j && b != j ==> v@[a] <= v@[b],
                forall|b: int| j < b <= i ==> v@[j as int] <= v@[b],
                v@.to_multiset() == old(v)@.to_multiset(),
            decreases j,
        {
            let lower: u32 = v[j - 1];
            let upper: u32 = v[j];
            let ghost before: Seq<u32> = v@;
            v[j - 1] = upper;
            v[j] = lower;
            proof {
                lemma_swap_keeps_multiset(before, j - 1, j as int);
            }
            j = j - 1;
        }
        i = i + 1;
    }
}

/// The order of magnitudes is a total order.
proof fn lemma_at_most_is_total()
    ensures
        total_ordering(at_most()),
{
    let leq = at_most();
    assert(vstd::relations::reflexive(leq));
    assert(vstd::relations::antisymmetric(leq));
    assert(vstd::relations::transitive(leq));
    assert(vstd::relations::strongly_connected(leq));
}

/// The short-circuit threshold of a current wave, in ADC counts: the
/// magnitude of rank `ADC_SAMPLES_5_MS` among the first `length` samples in
/// ascending order. A `length` of more than one cycle gives zero. Otherwise
/// `length` and the wave must exceed `ADC_SAMPLES_5_MS` samples.
pub fn short_circuit(signal: &[i32], length: usize) -> (threshold: u32)
    requires
        length > ADC_SAMPLES_50HZ_CYCLE || (length > ADC_SAMPLES_5_MS && signal@.len()
            > ADC_SAMPLES_5_MS),
    ensures
        threshold == short_circuit_threshold(signal@, length as int),
{
    if length > ADC_SAMPLES_50HZ_CYCLE {
        return 0;
    }
    let n: usize = if length <= signal.len() {
        length
    } else {
        signal.len()
    };
    let mut sorted_signal: Vec<u32> = Vec::new();
    let mut i: usize = 0;
    while i < n
        invariant
            i <= n <= signal@.len(),
            sorted_signal@.len() == i,
            forall|k: int| 0 <= k < i ==> #[trigger] sorted_signal@[k] == magnitude(signal@[k]),
        decreases n - i,
    {
        sorted_signal.push(optimal_abs(signal[i]));
        i = i + 1;
    }
    assert(sorted_signal@ =~= magnitudes(signal@, n as int));
    sort_ascending(&mut sorted_signal);
    proof {
        let unsorted: Seq<u32> = magnitudes(signal@, n as int);
        lemma_at_most_is_total();
        unsorted.lemma_sort_by_ensures(at_most());
        lemma_sorted_unique(sorted_signal@, unsorted.sort_by(at_most()), at_most());
    }
    sorted_signal[ADC_SAMPLES_5_MS]
}

} // verus!
