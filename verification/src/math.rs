//! Planar vectors and angles in fixed-point millionths.
//!
//! Angles are radians scaled by `FX_ONE`; `PI_FX` is the scaled circle
//! constant. The sine and arctangent routines are quadratic approximations
//! that stay within a few percent of the ideal functions — plenty for
//! steering a creature, whose thresholds are tuned game-feel constants —
//! and each one is proved to return exactly the value of its spec-level
//! twin, so every caller is deterministic. The contracts pin down these
//! approximations themselves, not ideal trigonometry.

use vstd::prelude::*;
use vstd::arithmetic::div_mod::{
    lemma_fundamental_div_mod,
    lemma_fundamental_div_mod_converse_mod,
    lemma_div_is_ordered,
    lemma_div_pos_is_pos,
};
use crate::fixed::{
    FX_ONE, FX_LIMIT, abs_val, fx_mul_val, fx_div_val, sqrt_val, clamp_val,
    fx_mul, fx_div, fx_abs, fx_sqrt, fx_clamp,
    lemma_fx_mul_le, lemma_fx_mul_nonneg, lemma_fx_div_unit, lemma_sqrt_val,
};

verus! {

/// Half a turn, in fixed-point radians.
pub const PI_FX: i64 = 3_141_593;

/// A full turn: exactly `2 * PI_FX`.
pub const TAU_FX: i64 = 6_283_186;

/// A quarter turn.
pub const HALF_PI_FX: i64 = 1_570_796;

/// Largest angle magnitude the wrapping and trigonometric routines accept.
pub const ANGLE_MAX: i64 = 2_000_000_000_000_000;

/// Largest vector component magnitude the componentwise operators accept.
pub const VEC_LIMIT: i64 = 1_000_000_000_000;

/// Largest coordinate magnitude for which a vector length fits 64 bits.
pub const COORD_LIMIT: i64 = 2_000_000_000;

/// Linear coefficient of the quadratic sine approximation (4 / pi).
pub const SIN_COEF_LINEAR: i64 = 1_273_240;

/// Quadratic coefficient of the sine approximation (4 / pi squared).
pub const SIN_COEF_QUAD: i64 = 405_285;

/// Linear coefficient of the arctangent approximation (pi / 4).
pub const ATAN_COEF_LINEAR: i64 = 785_398;

/// Correction coefficient of the arctangent approximation.
pub const ATAN_COEF_QUAD: i64 = 273_000;

/// A planar vector or point, both coordinates in fixed-point millionths.
#[derive(Clone, Copy, Debug, PartialEq, Eq, Structural)]
pub struct Vec2 {
    pub x: i64,
    pub y: i64,
}

impl View for Vec2 {
    type V = (int, int);

    open spec fn view(&self) -> (int, int) {
        (self.x as int, self.y as int)
    }
}

/// Shorthand constructor, mirroring the controller's call sites.
pub fn vec2(x: i64, y: i64) -> (r: Vec2)
    ensures
        r@ == (x as int, y as int),
{
    Vec2 { x, y }
}

/// Wrap an angle into `[-PI_FX, PI_FX)`.
pub open spec fn wrap_val(a: int) -> int {
    ((a + PI_FX) % (TAU_FX as int)) - PI_FX
}

/// Componentwise sum.
pub open spec fn add_val(a: (int, int), b: (int, int)) -> (int, int) {
    (a.0 + b.0, a.1 + b.1)
}

/// Componentwise difference.
pub open spec fn sub_val(a: (int, int), b: (int, int)) -> (int, int) {
    (a.0 - b.0, a.1 - b.1)
}

/// Componentwise negation.
pub open spec fn neg_val(a: (int, int)) -> (int, int) {
    (-a.0, -a.1)
}

/// Scale a vector by a fixed-point factor.
pub open spec fn scale_val(a: (int, int), s: int) -> (int, int) {
    (fx_mul_val(a.0, s), fx_mul_val(a.1, s))
}

/// Fixed-point dot product.
pub open spec fn dot_val(a: (int, int), b: (int, int)) -> int {
    fx_mul_val(a.0, b.0) + fx_mul_val(a.1, b.1)
}

/// Fixed-point squared length, scaled like any other fixed-point value.
pub open spec fn len_sq_val(a: (int, int)) -> int {
    fx_mul_val(a.0, a.0) + fx_mul_val(a.1, a.1)
}

/// Euclidean length: the integer square root of the raw coordinate squares.
pub open spec fn len_val(a: (int, int)) -> int {
    sqrt_val(a.0 * a.0 + a.1 * a.1)
}

/// Each component divided by the length.
pub open spec fn normalized_val(a: (int, int)) -> (int, int) {
    (fx_div_val(a.0, len_val(a)), fx_div_val(a.1, len_val(a)))
}

/// Rotate `a` by the rotation that takes the positive x-axis to `d`.
pub open spec fn rotated_val(a: (int, int), d: (int, int)) -> (int, int) {
    (
        fx_mul_val(a.0, d.0) - fx_mul_val(a.1, d.1),
        fx_mul_val(a.0, d.1) + fx_mul_val(a.1, d.0),
    )
}

/// The inverse rotation of `rotated_val`.
pub open spec fn unrotated_val(a: (int, int), d: (int, int)) -> (int, int) {
    (
        fx_mul_val(a.0, d.0) + fx_mul_val(a.1, d.1),
        fx_mul_val(a.1, d.0) - fx_mul_val(a.0, d.1),
    )
}

/// The quadratic sine approximation on a wrapped angle.
pub open spec fn sin_poly_val(x: int) -> int {
    fx_mul_val(SIN_COEF_LINEAR as int, x) - fx_mul_val(
        SIN_COEF_QUAD as int,
        fx_mul_val(x, abs_val(x)),
    )
}

/// Sine of an arbitrary fixed-point angle.
pub open spec fn sin_val(a: int) -> int {
    sin_poly_val(wrap_val(a))
}

/// Cosine of an arbitrary fixed-point angle.
pub open spec fn cos_val(a: int) -> int {
    sin_val(a + HALF_PI_FX)
}

/// The unit vector of an angle.
pub open spec fn from_angle_val(a: int) -> (int, int) {
    (cos_val(a), sin_val(a))
}

/// The quadratic arctangent approximation on `[0, FX_ONE]`.
pub open spec fn atan_unit_val(z: int) -> int {
    fx_mul_val(z, ATAN_COEF_LINEAR + fx_mul_val(ATAN_COEF_QUAD as int, FX_ONE - z))
}

/// Quadrant-aware arctangent of `y / x`, in `[-PI_FX, PI_FX]`.
pub open spec fn atan2_val(y: int, x: int) -> int {
    if x == 0 && y == 0 {
        0
    } else {
        let ax = abs_val(x);
        let ay = abs_val(y);
        let base = if ax >= ay {
            atan_unit_val(fx_div_val(ay, ax))
        } else {
            HALF_PI_FX - atan_unit_val(fx_div_val(ax, ay))
        };
        let mag = if x >= 0 {
            base
        } else {
            PI_FX - base
        };
        if y >= 0 {
            mag
        } else {
            -mag
        }
    }
}

/// The angle of a vector.
pub open spec fn to_angle_val(a: (int, int)) -> int {
    atan2_val(a.1, a.0)
}

/// The wrapped angle lands in `[-PI_FX, PI_FX)`.
pub proof fn lemma_wrap_range(a: int)
    ensures
        -PI_FX <= wrap_val(a) < PI_FX,
{
    vstd::arithmetic::div_mod::lemma_mod_bound(a + PI_FX, TAU_FX as int);
}

/// The quadratic sine approximation never strays past ten units.
pub proof fn lemma_sin_range(a: int)
    ensures
        abs_val(sin_val(a)) <= 10_000_000,
{
    lemma_wrap_range(a);
    let w = wrap_val(a);
    lemma_fx_mul_le(w, abs_val(w), PI_FX as int, PI_FX as int);
    lemma_fx_mul_le(SIN_COEF_LINEAR as int, w, SIN_COEF_LINEAR as int, PI_FX as int);
    lemma_fx_mul_le(
        SIN_COEF_QUAD as int,
        fx_mul_val(w, abs_val(w)),
        SIN_COEF_QUAD as int,
        ((PI_FX as int) * (PI_FX as int)) / (FX_ONE as int),
    );
}

/// Both components of a heading unit vector stay within ten units.
pub proof fn lemma_unit_range(a: int)
    ensures
        abs_val(from_angle_val(a).0) <= 10_000_000,
        abs_val(from_angle_val(a).1) <= 10_000_000,
{
    lemma_sin_range(a);
    lemma_sin_range(a + HALF_PI_FX);
}

/// Wrap an angle into `[-PI_FX, PI_FX)`.
pub fn wrap_angle(a: i64) -> (r: i64)
    requires
        -ANGLE_MAX <= a <= ANGLE_MAX,
    ensures
        r == wrap_val(a as int),
        -PI_FX <= r < PI_FX,
{
    let s: i64 = a + PI_FX;
    let m: u64 = if s >= 0 {
        (s as u64) % 6_283_186
    } else {
        let t: u64 = (-(s as i128)) as u64;
        let mt: u64 = t % 6_283_186;
        let qt: u64 = t / 6_283_186;
        proof {
            lemma_fundamental_div_mod(t as int, 6_283_186);
            if mt == 0 {
                lemma_fundamental_div_mod_converse_mod(s as int, 6_283_186, -(qt as int), 0);
            } else {
                lemma_fundamental_div_mod_converse_mod(
                    s as int,
                    6_283_186,
                    -(qt as int) - 1,
                    6_283_186 - mt as int,
                );
            }
        }
        if mt == 0 {
            0
        } else {
            6_283_186 - mt
        }
    };
    (m as i64) - PI_FX
}

/// Sine of a fixed-point angle.
pub fn fx_sin(a: i64) -> (r: i64)
    requires
        -ANGLE_MAX <= a <= ANGLE_MAX,
    ensures
        r == sin_val(a as int),
{
    let w: i64 = wrap_angle(a);
    let aw: i64 = fx_abs(w);
    let w2: i64 = fx_mul(w, aw);
    proof {
        lemma_fx_mul_le(w as int, aw as int, PI_FX as int, PI_FX as int);
        lemma_fx_mul_le(SIN_COEF_LINEAR as int, w as int, SIN_COEF_LINEAR as int, PI_FX as int);
        lemma_fx_mul_le(SIN_COEF_QUAD as int, w2 as int, SIN_COEF_QUAD as int, 9_869_608);
    }
    fx_mul(SIN_COEF_LINEAR, w) - fx_mul(SIN_COEF_QUAD, w2)
}

/// Cosine of a fixed-point angle.
pub fn fx_cos(a: i64) -> (r: i64)
    requires
        -ANGLE_MAX + HALF_PI_FX <= a <= ANGLE_MAX - HALF_PI_FX,
    ensures
        r == cos_val(a as int),
{
    fx_sin(a + HALF_PI_FX)
}

/// The arctangent approximation on `[0, FX_ONE]`, with its range.
fn atan_unit(z: i64) -> (r: i64)
    requires
        0 <= z <= FX_ONE,
    ensures
        r == atan_unit_val(z as int),
        0 <= r <= 1_058_398,
{
    let inner: i64 = ATAN_COEF_LINEAR + fx_mul(ATAN_COEF_QUAD, FX_ONE - z);
    proof {
        lemma_fx_mul_nonneg(ATAN_COEF_QUAD as int, FX_ONE - z as int);
        lemma_fx_mul_le(
            ATAN_COEF_QUAD as int,
            FX_ONE - z as int,
            ATAN_COEF_QUAD as int,
            FX_ONE as int,
        );
        lemma_fx_mul_nonneg(z as int, inner as int);
        lemma_fx_mul_le(z as int, inner as int, FX_ONE as int, 1_058_398);
    }
    fx_mul(z, inner)
}

/// The range of the spec-level arctangent approximation.
pub proof fn lemma_atan_unit_range(z: int)
    requires
        0 <= z <= FX_ONE as int,
    ensures
        0 <= atan_unit_val(z) <= 1_058_398,
{
    lemma_fx_mul_nonneg(ATAN_COEF_QUAD as int, FX_ONE - z);
    lemma_fx_mul_le(ATAN_COEF_QUAD as int, FX_ONE - z, ATAN_COEF_QUAD as int, FX_ONE as int);
    let inner = ATAN_COEF_LINEAR + fx_mul_val(ATAN_COEF_QUAD as int, FX_ONE - z);
    lemma_fx_mul_nonneg(z, inner);
    lemma_fx_mul_le(z, inner, FX_ONE as int, 1_058_398);
}

/// The spec-level arctangent stays within half a turn of zero.
pub proof fn lemma_atan2_range(y: int, x: int)
    ensures
        -PI_FX <= atan2_val(y, x) <= PI_FX,
{
    if x == 0 && y == 0 {
    } else {
        let ax = abs_val(x);
        let ay = abs_val(y);
        if ax >= ay {
            assert(ax > 0);
            lemma_fx_div_unit(ay, ax);
            lemma_atan_unit_range(fx_div_val(ay, ax));
        } else {
            lemma_fx_div_unit(ax, ay);
            lemma_atan_unit_range(fx_div_val(ax, ay));
        }
    }
}

/// Quadrant-aware arctangent.
pub fn fx_atan2(y: i64, x: i64) -> (r: i64)
    requires
        -FX_LIMIT <= y <= FX_LIMIT,
        -FX_LIMIT <= x <= FX_LIMIT,
    ensures
        r == atan2_val(y as int, x as int),
        -PI_FX <= r <= PI_FX,
{
    proof {
        lemma_atan2_range(y as int, x as int);
    }
    if x == 0 && y == 0 {
        return 0;
    }
    let ax: i64 = fx_abs(x);
    let ay: i64 = fx_abs(y);
    let base: i64 = if ax >= ay {
        proof {
            lemma_fx_div_unit(ay as int, ax as int);
        }
        atan_unit(fx_div(ay, ax))
    } else {
        proof {
            lemma_fx_div_unit(ax as int, ay as int);
        }
        HALF_PI_FX - atan_unit(fx_div(ax, ay))
    };
    let mag: i64 = if x >= 0 {
        base
    } else {
        PI_FX - base
    };
    if y >= 0 {
        mag
    } else {
        -mag
    }
}

impl Vec2 {
    /// The unit vector pointing along `angle`.
    pub fn from_angle(angle: i64) -> (r: Vec2)
        requires
            -ANGLE_MAX + HALF_PI_FX <= angle <= ANGLE_MAX - HALF_PI_FX,
        ensures
            r@ == from_angle_val(angle as int),
    {
        Vec2 { x: fx_cos(angle), y: fx_sin(angle) }
    }

    /// The angle this vector points along.
    pub fn to_angle(self) -> (r: i64)
        requires
            -FX_LIMIT <= self.x <= FX_LIMIT,
            -FX_LIMIT <= self.y <= FX_LIMIT,
        ensures
            r == to_angle_val(self@),
            -PI_FX <= r <= PI_FX,
    {
        fx_atan2(self.y, self.x)
    }

    /// Componentwise sum.
    pub fn add(self, other: Vec2) -> (r: Vec2)
        requires
            -VEC_LIMIT <= self.x <= VEC_LIMIT,
            -VEC_LIMIT <= self.y <= VEC_LIMIT,
            -VEC_LIMIT <= other.x <= VEC_LIMIT,
            -VEC_LIMIT <= other.y <= VEC_LIMIT,
        ensures
            r@ == add_val(self@, other@),
    {
        Vec2 { x: self.x + other.x, y: self.y + other.y }
    }

    /// Componentwise difference.
    pub fn sub(self, other: Vec2) -> (r: Vec2)
        requires
            -VEC_LIMIT <= self.x <= VEC_LIMIT,
            -VEC_LIMIT <= self.y <= VEC_LIMIT,
            -VEC_LIMIT <= other.x <= VEC_LIMIT,
            -VEC_LIMIT <= other.y <= VEC_LIMIT,
        ensures
            r@ == sub_val(self@, other@),
    {
        Vec2 { x: self.x - other.x, y: self.y - other.y }
    }

    /// Componentwise negation.
    pub fn neg(self) -> (r: Vec2)
        requires
            -VEC_LIMIT <= self.x <= VEC_LIMIT,
            -VEC_LIMIT <= self.y <= VEC_LIMIT,
        ensures
            r@ == neg_val(self@),
    {
        Vec2 { x: -self.x, y: -self.y }
    }

    /// Scale by a fixed-point factor.
    pub fn scale(self, s: i64) -> (r: Vec2)
        requires
            -FX_LIMIT <= self.x <= FX_LIMIT,
            -FX_LIMIT <= self.y <= FX_LIMIT,
            -FX_LIMIT <= s <= FX_LIMIT,
        ensures
            r@ == scale_val(self@, s as int),
    {
        Vec2 { x: fx_mul(self.x, s), y: fx_mul(self.y, s) }
    }

    /// Fixed-point dot product.
    pub fn dot(self, other: Vec2) -> (r: i64)
        requires
            -VEC_LIMIT <= self.x <= VEC_LIMIT,
            -VEC_LIMIT <= self.y <= VEC_LIMIT,
            -VEC_LIMIT <= other.x <= VEC_LIMIT,
            -VEC_LIMIT <= other.y <= VEC_LIMIT,
        ensures
            r == dot_val(self@, other@),
    {
        proof {
            lemma_fx_mul_le(self.x as int, other.x as int, VEC_LIMIT as int, VEC_LIMIT as int);
            lemma_fx_mul_le(self.y as int, other.y as int, VEC_LIMIT as int, VEC_LIMIT as int);
        }
        fx_mul(self.x, other.x) + fx_mul(self.y, other.y)
    }

    /// Fixed-point squared length.
    pub fn length_squared(self) -> (r: i64)
        requires
            -VEC_LIMIT <= self.x <= VEC_LIMIT,
            -VEC_LIMIT <= self.y <= VEC_LIMIT,
        ensures
            r == len_sq_val(self@),
    {
        self.dot(self)
    }

    /// Euclidean length.
    pub fn length(self) -> (r: i64)
        requires
            -COORD_LIMIT <= self.x <= COORD_LIMIT,
            -COORD_LIMIT <= self.y <= COORD_LIMIT,
        ensures
            r == len_val(self@),
            0 <= r <= 3_000_000_000,
    {
        let xx: i64 = self.x;
        let yy: i64 = self.y;
        assert(0 <= (xx as int) * (xx as int) <= 4_000_000_000_000_000_000
            && 0 <= (yy as int) * (yy as int) <= 4_000_000_000_000_000_000) by (nonlinear_arith)
            requires
                -2_000_000_000 <= xx <= 2_000_000_000,
                -2_000_000_000 <= yy <= 2_000_000_000,
        ;
        let sq: i64 = xx * xx + yy * yy;
        let r: i64 = fx_sqrt(sq);
        proof {
            lemma_sqrt_val(sq as int);
            assert(r <= 3_000_000_000) by (nonlinear_arith)
                requires
                    0 <= r,
                    (r as int) * (r as int) <= 8_000_000_000_000_000_000,
            ;
        }
        r
    }

    /// The vector scaled to roughly unit length.
    pub fn normalized(self) -> (r: Vec2)
        requires
            -COORD_LIMIT <= self.x <= COORD_LIMIT,
            -COORD_LIMIT <= self.y <= COORD_LIMIT,
            !(self.x == 0 && self.y == 0),
        ensures
            r@ == normalized_val(self@),
    {
        let l: i64 = self.length();
        proof {
            if l == 0 {
                let xi = self.x as int;
                let yi = self.y as int;
                assert(xi * xi + yi * yi >= 1) by (nonlinear_arith)
                    requires
                        !(xi == 0 && yi == 0),
                ;
                lemma_sqrt_val(xi * xi + yi * yi);
            }
        }
        Vec2 { x: fx_div(self.x, l), y: fx_div(self.y, l) }
    }

    /// Rotate by the rotation taking the positive x-axis to `direction`.
    pub fn rotated(self, direction: Vec2) -> (r: Vec2)
        requires
            -VEC_LIMIT <= self.x <= VEC_LIMIT,
            -VEC_LIMIT <= self.y <= VEC_LIMIT,
            -VEC_LIMIT <= direction.x <= VEC_LIMIT,
            -VEC_LIMIT <= direction.y <= VEC_LIMIT,
        ensures
            r@ == rotated_val(self@, direction@),
    {
        proof {
            lemma_fx_mul_le(self.x as int, direction.x as int, VEC_LIMIT as int, VEC_LIMIT as int);
            lemma_fx_mul_le(self.y as int, direction.y as int, VEC_LIMIT as int, VEC_LIMIT as int);
            lemma_fx_mul_le(self.x as int, direction.y as int, VEC_LIMIT as int, VEC_LIMIT as int);
            lemma_fx_mul_le(self.y as int, direction.x as int, VEC_LIMIT as int, VEC_LIMIT as int);
        }
        Vec2 {
            x: fx_mul(self.x, direction.x) - fx_mul(self.y, direction.y),
            y: fx_mul(self.x, direction.y) + fx_mul(self.y, direction.x),
        }
    }

    /// The inverse rotation of `rotated`.
    pub fn unrotated(self, direction: Vec2) -> (r: Vec2)
        requires
            -VEC_LIMIT <= self.x <= VEC_LIMIT,
            -VEC_LIMIT <= self.y <= VEC_LIMIT,
            -VEC_LIMIT <= direction.x <= VEC_LIMIT,
            -VEC_LIMIT <= direction.y <= VEC_LIMIT,
        ensures
            r@ == unrotated_val(self@, direction@),
    {
        proof {
            lemma_fx_mul_le(self.x as int, direction.x as int, VEC_LIMIT as int, VEC_LIMIT as int);
            lemma_fx_mul_le(self.y as int, direction.y as int, VEC_LIMIT as int, VEC_LIMIT as int);
            lemma_fx_mul_le(self.x as int, direction.y as int, VEC_LIMIT as int, VEC_LIMIT as int);
            lemma_fx_mul_le(self.y as int, direction.x as int, VEC_LIMIT as int, VEC_LIMIT as int);
        }
        Vec2 {
            x: fx_mul(self.x, direction.x) + fx_mul(self.y, direction.y),
            y: fx_mul(self.y, direction.x) - fx_mul(self.x, direction.y),
        }
    }

    /// Clamp both coordinates into `[-bound, bound]`.
    pub fn clamped(self, bound: i64) -> (r: Vec2)
        requires
            0 <= bound,
        ensures
            r@ == (
                clamp_val(self.x as int, -bound as int, bound as int),
                clamp_val(self.y as int, -bound as int, bound as int),
            ),
    {
        Vec2 { x: fx_clamp(self.x, -bound, bound), y: fx_clamp(self.y, -bound, bound) }
    }
}

} // verus!
