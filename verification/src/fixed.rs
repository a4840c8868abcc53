//! Fixed-point scalars: one world unit is `FX_ONE` millionths.
//!
//! Every product and quotient is defined by a spec function with truncating
//! (round-toward-zero) semantics, and the executable operators are proved to
//! return exactly that value.

use vstd::prelude::*;
use vstd::arithmetic::div_mod::{
    lemma_div_is_ordered,
    lemma_div_nonincreasing,
    lemma_div_pos_is_pos,
    lemma_div_multiples_vanish,
};

verus! {

/// One world unit, in fixed-point millionths.
pub const FX_ONE: i64 = 1_000_000;

/// Largest magnitude accepted by the fixed-point multiplier and divider.
/// Three million world units: far beyond anything the controller computes,
/// while keeping every intermediate product inside 128 bits and every result
/// inside 64 bits.
pub const FX_LIMIT: i64 = 3_000_000_000_000;

/// Magnitude of an integer.
pub open spec fn abs_val(a: int) -> int {
    if a < 0 {
        -a
    } else {
        a
    }
}

/// Truncating fixed-point product: `a * b` scaled back down by `FX_ONE`,
/// rounded toward zero.
pub open spec fn fx_mul_val(a: int, b: int) -> int {
    if a * b >= 0 {
        (a * b) / (FX_ONE as int)
    } else {
        -((-(a * b)) / (FX_ONE as int))
    }
}

/// Truncating fixed-point quotient: `a / b` scaled up by `FX_ONE`,
/// rounded toward zero. Unused at divisor zero.
pub open spec fn fx_div_val(a: int, b: int) -> int {
    if b == 0 {
        0
    } else if (a >= 0) == (b >= 0) {
        (abs_val(a) * (FX_ONE as int)) / abs_val(b)
    } else {
        -((abs_val(a) * (FX_ONE as int)) / abs_val(b))
    }
}

/// Clamp `a` into `[lo, hi]`.
pub open spec fn clamp_val(a: int, lo: int, hi: int) -> int {
    if a < lo {
        lo
    } else if a > hi {
        hi
    } else {
        a
    }
}

/// Relates a product to the product of the factor magnitudes.
proof fn lemma_abs_mul(a: int, b: int, aa: int, bb: int)
    requires
        aa == abs_val(a),
        bb == abs_val(b),
    ensures
        aa * bb == abs_val(a * b),
        ((a < 0) != (b < 0)) ==> a * b <= 0,
        !((a < 0) != (b < 0)) ==> a * b >= 0,
{
    if a >= 0 && b >= 0 {
        assert(a * b >= 0 && a * b == aa * bb) by (nonlinear_arith)
            requires
                a >= 0,
                b >= 0,
                aa == a,
                bb == b,
        ;
    } else if a < 0 && b < 0 {
        assert(a * b >= 0 && a * b == aa * bb) by (nonlinear_arith)
            requires
                a < 0,
                b < 0,
                aa == -a,
                bb == -b,
        ;
    } else if a >= 0 {
        assert(a * b <= 0 && -(a * b) == aa * bb) by (nonlinear_arith)
            requires
                a >= 0,
                b < 0,
                aa == a,
                bb == -b,
        ;
    } else {
        assert(a * b <= 0 && -(a * b) == aa * bb) by (nonlinear_arith)
            requires
                a < 0,
                b >= 0,
                aa == -a,
                bb == b,
        ;
    }
}

/// The magnitude of a truncating product is the truncated magnitude product.
pub proof fn lemma_fx_mul_abs(a: int, b: int)
    ensures
        abs_val(fx_mul_val(a, b)) == (abs_val(a) * abs_val(b)) / (FX_ONE as int),
{
    lemma_abs_mul(a, b, abs_val(a), abs_val(b));
    let p = a * b;
    if p >= 0 {
        lemma_div_pos_is_pos(p, FX_ONE as int);
    } else {
        lemma_div_pos_is_pos(-p, FX_ONE as int);
    }
}

/// Bounding both factors bounds the truncating product.
pub proof fn lemma_fx_mul_le(a: int, b: int, bound_a: int, bound_b: int)
    requires
        abs_val(a) <= bound_a,
        abs_val(b) <= bound_b,
    ensures
        abs_val(fx_mul_val(a, b)) <= (bound_a * bound_b) / (FX_ONE as int),
{
    lemma_fx_mul_abs(a, b);
    assert(abs_val(a) * abs_val(b) <= bound_a * bound_b) by (nonlinear_arith)
        requires
            0 <= abs_val(a) <= bound_a,
            0 <= abs_val(b) <= bound_b,
    ;
    lemma_div_is_ordered(abs_val(a) * abs_val(b), bound_a * bound_b, FX_ONE as int);
}

/// A product of nonnegative factors scales down without a sign case.
pub proof fn lemma_fx_mul_nonneg(a: int, b: int)
    requires
        0 <= a,
        0 <= b,
    ensures
        fx_mul_val(a, b) == (a * b) / (FX_ONE as int),
        0 <= fx_mul_val(a, b),
{
    assert(a * b >= 0) by (nonlinear_arith)
        requires
            0 <= a,
            0 <= b,
    ;
    lemma_div_pos_is_pos(a * b, FX_ONE as int);
}

/// Dividing by a divisor at least as large yields at most one unit.
pub proof fn lemma_fx_div_unit(a: int, b: int)
    requires
        0 <= a <= b,
        0 < b,
    ensures
        0 <= fx_div_val(a, b) <= FX_ONE as int,
        fx_div_val(a, b) == (a * (FX_ONE as int)) / b,
{
    assert(a * (FX_ONE as int) <= b * (FX_ONE as int)) by (nonlinear_arith)
        requires
            a <= b,
    ;
    lemma_div_is_ordered(a * (FX_ONE as int), b * (FX_ONE as int), b);
    lemma_div_multiples_vanish(FX_ONE as int, b);
    assert(b * (FX_ONE as int) == (FX_ONE as int) * b) by (nonlinear_arith);
    lemma_div_pos_is_pos(a * (FX_ONE as int), b);
}

/// Squaring ignores sign.
pub proof fn lemma_abs_sq(a: int)
    ensures
        abs_val(a) * abs_val(a) == a * a,
{
    if a < 0 {
        assert((-a) * (-a) == a * a) by (nonlinear_arith);
    }
}

/// The integer square root of `n`, counting up from candidate `r`.
pub open spec fn sqrt_from(n: int, r: int) -> int
    decreases n - r * r,
    via sqrt_from_decreases
{
    if n < 0 || r < 0 || r * r > n {
        0
    } else if (r + 1) * (r + 1) > n {
        r
    } else {
        sqrt_from(n, r + 1)
    }
}

#[via_fn]
proof fn sqrt_from_decreases(n: int, r: int) {
    assert(0 <= r ==> r * r < (r + 1) * (r + 1)) by (nonlinear_arith);
}

/// The integer square root of `n`: the greatest `r` with `r * r <= n`.
pub open spec fn sqrt_val(n: int) -> int {
    sqrt_from(n, 0)
}

/// `sqrt_from` finds the integer root above any valid candidate.
pub proof fn lemma_sqrt_from(n: int, r: int)
    requires
        0 <= r,
        r * r <= n,
    ensures
        r <= sqrt_from(n, r),
        sqrt_from(n, r) * sqrt_from(n, r) <= n,
        (sqrt_from(n, r) + 1) * (sqrt_from(n, r) + 1) > n,
    decreases n - r * r,
{
    if (r + 1) * (r + 1) > n {
    } else {
        assert(r * r < (r + 1) * (r + 1)) by (nonlinear_arith)
            requires
                0 <= r,
        ;
        lemma_sqrt_from(n, r + 1);
    }
}

/// The integer square root is nonnegative and brackets `n`.
pub proof fn lemma_sqrt_val(n: int)
    requires
        0 <= n,
    ensures
        0 <= sqrt_val(n),
        sqrt_val(n) * sqrt_val(n) <= n,
        (sqrt_val(n) + 1) * (sqrt_val(n) + 1) > n,
{
    lemma_sqrt_from(n, 0);
}

/// The integer square root dominates every candidate whose square fits.
pub proof fn lemma_sqrt_ge(n: int, r: int)
    requires
        0 <= r,
        r * r <= n,
    ensures
        sqrt_val(n) >= r,
{
    assert(0 <= n) by (nonlinear_arith)
        requires
            0 <= r,
            r * r <= n,
    ;
    lemma_sqrt_val(n);
    let s = sqrt_val(n);
    assert(s >= r) by (nonlinear_arith)
        requires
            0 <= r,
            0 <= s,
            r * r <= n,
            (s + 1) * (s + 1) > n,
    ;
}

/// Any integer with the square-root bracketing property is `sqrt_val(n)`.
pub proof fn lemma_sqrt_unique(n: int, r: int)
    requires
        0 <= r,
        r * r <= n,
        (r + 1) * (r + 1) > n,
    ensures
        r == sqrt_val(n),
{
    lemma_sqrt_val(n);
    let s = sqrt_val(n);
    assert(r == s) by (nonlinear_arith)
        requires
            0 <= r,
            0 <= s,
            r * r <= n,
            s * s <= n,
            (r + 1) * (r + 1) > n,
            (s + 1) * (s + 1) > n,
    ;
}

/// Magnitude of a fixed-point scalar.
pub fn fx_abs(a: i64) -> (r: i64)
    requires
        a != i64::MIN,
    ensures
        r == abs_val(a as int),
{
    if a < 0 {
        -a
    } else {
        a
    }
}

/// Clamp a fixed-point scalar into `[lo, hi]`.
pub fn fx_clamp(a: i64, lo: i64, hi: i64) -> (r: i64)
    requires
        lo <= hi,
    ensures
        r == clamp_val(a as int, lo as int, hi as int),
{
    if a < lo {
        lo
    } else if a > hi {
        hi
    } else {
        a
    }
}

/// Truncating fixed-point product.
pub fn fx_mul(a: i64, b: i64) -> (r: i64)
    requires
        -FX_LIMIT <= a <= FX_LIMIT,
        -FX_LIMIT <= b <= FX_LIMIT,
    ensures
        r == fx_mul_val(a as int, b as int),
{
    let neg: bool = (a < 0) != (b < 0);
    let aa: u64 = if a < 0 { (-(a as i128)) as u64 } else { a as u64 };
    let bb: u64 = if b < 0 { (-(b as i128)) as u64 } else { b as u64 };
    proof {
        lemma_abs_mul(a as int, b as int, aa as int, bb as int);
    }
    assert((aa as int) * (bb as int) <= 9_000_000_000_000_000_000_000_000) by (nonlinear_arith)
        requires
            aa <= 3_000_000_000_000,
            bb <= 3_000_000_000_000,
    ;
    let m: u128 = (aa as u128) * (bb as u128);
    let q: u128 = m / 1_000_000;
    proof {
        lemma_div_is_ordered(m as int, 9_000_000_000_000_000_000_000_000, 1_000_000);
    }
    let r: i64 = if neg { -(q as i64) } else { q as i64 };
    proof {
        let p = (a as int) * (b as int);
        if !neg {
            assert(p >= 0 && p == m);
            assert(r == fx_mul_val(a as int, b as int));
        } else {
            assert(p <= 0 && -p == m);
            if p == 0 {
                assert(r == 0);
                assert(fx_mul_val(a as int, b as int) == 0);
            } else {
                assert(r == fx_mul_val(a as int, b as int));
            }
        }
    }
    r
}

/// Truncating fixed-point quotient. The divisor must be nonzero.
pub fn fx_div(a: i64, b: i64) -> (r: i64)
    requires
        -FX_LIMIT <= a <= FX_LIMIT,
        -FX_LIMIT <= b <= FX_LIMIT,
        b != 0,
    ensures
        r == fx_div_val(a as int, b as int),
{
    let neg: bool = (a < 0) != (b < 0);
    let aa: u64 = if a < 0 { (-(a as i128)) as u64 } else { a as u64 };
    let bb: u64 = if b < 0 { (-(b as i128)) as u64 } else { b as u64 };
    let m: u128 = (aa as u128) * 1_000_000;
    let q: u128 = m / (bb as u128);
    proof {
        lemma_div_nonincreasing(m as int, bb as int);
        lemma_div_pos_is_pos(m as int, bb as int);
        assert((a as int >= 0) == (b as int >= 0) <==> !neg);
    }
    let r: i64 = if neg { -(q as i64) } else { q as i64 };
    r
}

/// Integer square root of a nonnegative fixed-point scalar.
pub fn fx_sqrt(n: i64) -> (r: i64)
    requires
        0 <= n,
    ensures
        r == sqrt_val(n as int),
        0 <= r,
        r * r <= n,
{
    let mut lo: u64 = 0;
    let mut hi: u64 = 3_037_000_500;
    assert((3_037_000_500int + 1) * (3_037_000_500int + 1) > n as int) by (nonlinear_arith)
        requires
            n <= 0x7fff_ffff_ffff_ffff,
    ;
    while lo < hi
        invariant
            lo <= hi,
            hi <= 3_037_000_500,
            (lo as int) * (lo as int) <= n as int,
            ((hi as int) + 1) * ((hi as int) + 1) > n as int,
        decreases hi - lo,
    {
        let mid: u64 = lo + (hi - lo + 1) / 2;
        assert(lo < mid <= hi);
        assert((mid as int) * (mid as int) <= 9_300_000_000_000_000_000) by (nonlinear_arith)
            requires
                mid <= 3_037_000_500,
        ;
        if (mid as u128) * (mid as u128) <= n as u128 {
            lo = mid;
        } else {
            hi = mid - 1;
        }
    }
    proof {
        lemma_sqrt_unique(n as int, lo as int);
    }
    lo as i64
}

} // verus!
