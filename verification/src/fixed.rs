//! Fixed-point scalar arithmetic.
//!
//! Every scalar quantity of this crate — noise coordinates, noise values,
//! mesh coordinates, fractal parameters — is a signed 64-bit integer carrying
//! 16 fractional bits, so the real value `1.0` is represented by [`SCALE`]
//! ticks.  All executable arithmetic is proved equal to an exact mathematical
//! model over unbounded integers, where division always rounds toward
//! negative infinity (floor).

use vstd::prelude::*;
use vstd::arithmetic::div_mod::lemma_div_is_ordered;
use vstd::arithmetic::div_mod::lemma_fundamental_div_mod;
use vstd::arithmetic::div_mod::lemma_fundamental_div_mod_converse_div;
use vstd::arithmetic::div_mod::lemma_mod_bound;

verus! {

/// Number of ticks that represent the real value one: fixed-point values
/// carry 16 fractional bits.
pub const SCALE: i64 = 65536;

/// Magnitude cap on fixed-point coordinates and fractal parameters
/// (`32768.0` in real terms).  Keeping inputs within this bound lets every
/// intermediate 64-bit product be proved free of overflow.
pub const FIXED_BOUND: i64 = 0x8000_0000;

/// `v` forced into the closed interval `[lo, hi]`.
pub open spec fn clamp_spec(v: int, lo: int, hi: int) -> int {
    if v < lo {
        lo
    } else if v > hi {
        hi
    } else {
        v
    }
}

/// Exact model of the fixed-point product: the integer product rescaled by
/// [`SCALE`], rounding toward negative infinity.
pub open spec fn fix_mul_spec(a: int, b: int) -> int {
    (a * b) / (SCALE as int)
}

/// Quotient of `a` by a positive divisor `d`, rounded toward negative
/// infinity, matching the mathematical (Euclidean) `/` of the specification
/// language.
pub fn floor_div(a: i64, d: i64) -> (r: i64)
    requires
        -0x4000_0000_0000_0000 <= a <= 0x4000_0000_0000_0000,
        0 < d <= 0x1_0000_0000,
    ensures
        r == a as int / d as int,
{
    if a >= 0 {
        a / d
    } else {
        let n = -a;
        let q = (n + (d - 1)) / d;
        proof {
            let ni = n + (d as int) - 1;
            let di = d as int;
            lemma_fundamental_div_mod(ni, di);
            lemma_mod_bound(ni, di);
            let s = ni % di;
            assert(ni == di * (ni / di) + s);
            assert(a as int == (-(ni / di)) * di + (di - 1 - s)) by (nonlinear_arith)
                requires
                    ni == di * (ni / di) + s,
                    a == -(ni - di + 1),
            ;
            lemma_fundamental_div_mod_converse_div(a as int, di, -(ni / di), di - 1 - s);
        }
        -q
    }
}

/// Fixed-point product of two values bounded by [`FIXED_BOUND`].
pub fn fix_mul(a: i64, b: i64) -> (r: i64)
    requires
        -FIXED_BOUND <= a <= FIXED_BOUND,
        -FIXED_BOUND <= b <= FIXED_BOUND,
    ensures
        r == fix_mul_spec(a as int, b as int),
        -0x4000_0000_0000 <= r <= 0x4000_0000_0000,
{
    proof {
        assert(-0x4000_0000_0000_0000 <= a * b <= 0x4000_0000_0000_0000) by (nonlinear_arith)
            requires
                -0x8000_0000 <= a <= 0x8000_0000,
                -0x8000_0000 <= b <= 0x8000_0000,
        ;
        lemma_div_is_ordered(-0x4000_0000_0000_0000, a as int * b as int, 65536);
        lemma_div_is_ordered(a as int * b as int, 0x4000_0000_0000_0000, 65536);
    }
    let p = a * b;
    floor_div(p, SCALE)
}

/// Fixed-point product saturated into `[-FIXED_BOUND, FIXED_BOUND]`, used
/// where repeated multiplication could otherwise grow without bound.
pub fn fix_mul_clamped(a: i64, b: i64) -> (r: i64)
    requires
        -FIXED_BOUND <= a <= FIXED_BOUND,
        -FIXED_BOUND <= b <= FIXED_BOUND,
    ensures
        r == clamp_spec(fix_mul_spec(a as int, b as int), -FIXED_BOUND as int, FIXED_BOUND as int),
        -FIXED_BOUND <= r <= FIXED_BOUND,
{
    let p = fix_mul(a, b);
    if p < -FIXED_BOUND {
        -FIXED_BOUND
    } else if p > FIXED_BOUND {
        FIXED_BOUND
    } else {
        p
    }
}

} // verus!
