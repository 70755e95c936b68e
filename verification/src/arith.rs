//! Integer arithmetic shared by the measurement stages: division that rounds
//! toward zero, division that rounds to the nearest integer, clamping and the
//! integer square root.

use vstd::prelude::*;

verus! {

/// The value of unity for ratios: power factor, smoothing constant, harmonic
/// content and distortion are all expressed in parts per million.
pub const RATIO_ONE: i64 = 1_000_000;

/// The quotient of `a` by a positive `b`, rounded toward zero.
pub open spec fn div_toward_zero(a: int, b: int) -> int {
    if a >= 0 {
        a / b
    } else {
        -((-a) / b)
    }
}

/// The quotient of a non-negative `a` by a positive `b`, rounded to the
/// nearest integer, halves upward.
pub open spec fn div_nearest(a: int, b: int) -> int {
    (2 * a + b) / (2 * b)
}

/// `v` limited to the closed interval from `lo` to `hi`.
pub open spec fn clamp(v: int, lo: int, hi: int) -> int {
    if v < lo {
        lo
    } else if v > hi {
        hi
    } else {
        v
    }
}

/// `r` is the largest integer whose square does not exceed `n`.
pub open spec fn is_floor_sqrt(n: int, r: int) -> bool {
    0 <= r && r * r <= n < (r + 1) * (r + 1)
}

/// The largest integer whose square does not exceed `n`; 0 for negative `n`.
pub open spec fn floor_sqrt(n: int) -> int {
    if n < 0 {
        0
    } else {
        choose|r: int| is_floor_sqrt(n, r)
    }
}

/// A fraction of at most one of a distance, rounded toward zero, is no longer
/// than the distance and points the same way.
pub proof fn lemma_fraction_within(num: int, den: int, distance: int)
    requires
        0 <= num <= den,
        0 < den,
    ensures
        distance >= 0 ==> 0 <= div_toward_zero(num * distance, den) <= distance,
        distance <= 0 ==> distance <= div_toward_zero(num * distance, den) <= 0,
{
    if distance >= 0 {
        assert(0 <= num * distance <= den * distance) by (nonlinear_arith)
            requires
                0 <= num <= den,
                distance >= 0,
        ;
        assert(0 <= (num * distance) / den <= distance) by (nonlinear_arith)
            requires
                0 <= num * distance <= den * distance,
                0 < den,
        ;
    } else {
        assert(0 <= -(num * distance) <= den * (-distance)) by (nonlinear_arith)
            requires
                0 <= num <= den,
                distance < 0,
        ;
        assert(0 <= (-(num * distance)) / den <= -distance) by (nonlinear_arith)
            requires
                0 <= -(num * distance) <= den * (-distance),
                0 < den,
        ;
    }
}

/// The quotient of a number between `-bound * den` and `bound * den` by a
/// positive `den`, rounded toward zero, lies between `-bound` and `bound`.
pub proof fn lemma_quotient_bound(a: int, den: int, bound: int)
    requires
        0 < den,
        0 <= bound,
        -(bound * den) <= a <= bound * den,
    ensures
        -bound <= div_toward_zero(a, den) <= bound,
{
    if a >= 0 {
        assert(0 <= a / den <= bound) by (nonlinear_arith)
            requires
                0 <= a <= bound * den,
                0 < den,
        ;
    } else {
        assert(0 <= (-a) / den <= bound) by (nonlinear_arith)
            requires
                0 <= -a <= bound * den,
                0 < den,
        ;
    }
}

proof fn lemma_square_monotonic(a: int, b: int)
    requires
        0 <= a <= b,
    ensures
        a * a <= b * b,
{
    assert(a * a <= b * b) by (nonlinear_arith)
        requires
            0 <= a <= b,
    ;
}

proof fn lemma_floor_sqrt_exists(n: int) -> (r: int)
    requires
        0 <= n,
    ensures
        is_floor_sqrt(n, r),
    decreases n,
{
    if n == 0 {
        assert(is_floor_sqrt(0, 0));
        0
    } else {
        let p: int = lemma_floor_sqrt_exists(n - 1);
        if (p + 1) * (p + 1) <= n {
            assert((p + 1) * (p + 1) == n);
            assert(n < (p + 2) * (p + 2)) by (nonlinear_arith)
                requires
                    (p + 1) * (p + 1) == n,
                    0 <= p,
            ;
            p + 1
        } else {
            p
        }
    }
}

/// An integer with the defining property of the floor square root is the
/// floor square root.
pub proof fn lemma_floor_sqrt_unique(n: int, r: int)
    requires
        is_floor_sqrt(n, r),
    ensures
        floor_sqrt(n) == r,
{
    assert(0 <= r * r) by (nonlinear_arith);
    let c: int = floor_sqrt(n);
    assert(is_floor_sqrt(n, c));
    if c < r {
        lemma_square_monotonic(c + 1, r);
    } else if r < c {
        lemma_square_monotonic(r + 1, c);
    }
}

/// The floor square root of a non-negative number has its defining property.
pub proof fn lemma_floor_sqrt_is_floor_sqrt(n: int)
    requires
        0 <= n,
    ensures
        is_floor_sqrt(n, floor_sqrt(n)),
{
    let r: int = lemma_floor_sqrt_exists(n);
}

/// The integer square root: the largest `r` with `r * r <= n`.
pub fn integer_sqrt(n: u128) -> (r: u64)
    ensures
        r == floor_sqrt(n as int),
        is_floor_sqrt(n as int, r as int),
{
    let mut lo: u128 = 0;
    let mut hi: u128 = 0x1_0000_0000_0000_0000;
    assert(n < hi * hi) by (nonlinear_arith)
        requires
            hi == 0x1_0000_0000_0000_0000u128,
            n <= u128::MAX,
    ;
    while hi - lo > 1
        invariant
            lo < hi <= 0x1_0000_0000_0000_0000,
            lo * lo <= n < hi * hi,
        decreases hi - lo,
    {
        let mid: u128 = lo + (hi - lo) / 2;
        assert(mid * mid <= u128::MAX) by (nonlinear_arith)
            requires
                mid < 0x1_0000_0000_0000_0000u128,
        ;
        if mid * mid <= n {
            lo = mid;
        } else {
            hi = mid;
        }
    }
    proof {
        lemma_floor_sqrt_unique(n as int, lo as int);
    }
    lo as u64
}

} // verus!
