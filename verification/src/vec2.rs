//! A 2-component fixed-point vector with the arithmetic the simulation
//! needs: addition, subtraction, scaling, dot product, squared and ordinary
//! norm, and normalization with a defined fallback for the zero vector.

use vstd::prelude::*;
use crate::fixed::{
    SCALE, abs_int, cl, clamp_i64, clamp128, fx_mul, fx_div, fxmul, fxdiv, is_sqrt_floor,
    isqrt, sat_add, sqrt_floor, tdiv, tdiv128,
};

verus! {

#[derive(Clone, Copy, PartialEq, Eq, Structural, Debug)]
pub struct Vec2 {
    pub x: i64,
    pub y: i64,
}

pub open spec fn v2_zero() -> Vec2 {
    Vec2 { x: 0, y: 0 }
}

pub open spec fn v2_add(a: Vec2, b: Vec2) -> Vec2 {
    Vec2 { x: cl(a.x + b.x), y: cl(a.y + b.y) }
}

pub open spec fn v2_sub(a: Vec2, b: Vec2) -> Vec2 {
    Vec2 { x: cl(a.x - b.x), y: cl(a.y - b.y) }
}

pub open spec fn v2_neg(a: Vec2) -> Vec2 {
    Vec2 { x: cl(-(a.x as int)), y: cl(-(a.y as int)) }
}

/// Componentwise product with a fixed-point scalar.
pub open spec fn v2_scale(a: Vec2, s: int) -> Vec2 {
    Vec2 { x: cl(fx_mul(a.x as int, s)), y: cl(fx_mul(a.y as int, s)) }
}

/// Componentwise quotient by a fixed-point scalar.
pub open spec fn v2_div(a: Vec2, s: int) -> Vec2 {
    Vec2 { x: cl(fx_div(a.x as int, s)), y: cl(fx_div(a.y as int, s)) }
}

/// The exact sum of the squared components, in squared sub-units.
pub open spec fn norm_sq_raw(a: Vec2) -> int {
    (a.x as int) * (a.x as int) + (a.y as int) * (a.y as int)
}

/// The squared norm as a fixed-point scalar: each squared component is
/// rescaled and truncated before the two are added with saturation.
pub open spec fn v2_norm_sq(a: Vec2) -> int {
    clamp_i64(
        clamp_i64(tdiv((a.x as int) * (a.x as int), SCALE as int)) + clamp_i64(
            tdiv((a.y as int) * (a.y as int), SCALE as int),
        ),
    )
}

/// The dot product as a fixed-point scalar, built the same way as the
/// squared norm.
pub open spec fn v2_dot(a: Vec2, b: Vec2) -> int {
    clamp_i64(
        clamp_i64(tdiv((a.x as int) * (b.x as int), SCALE as int)) + clamp_i64(
            tdiv((a.y as int) * (b.y as int), SCALE as int),
        ),
    )
}

/// The norm as a fixed-point scalar: the integer square root of the raw
/// sum of squares, saturated.
pub open spec fn v2_norm(a: Vec2) -> int {
    clamp_i64(sqrt_floor(norm_sq_raw(a)))
}

/// The unit direction of `a` in fixed point; the zero vector maps to zero,
/// the defined fallback for coincident points.
pub open spec fn v2_dir(a: Vec2) -> Vec2 {
    if norm_sq_raw(a) == 0 {
        v2_zero()
    } else {
        Vec2 {
            x: cl(tdiv((a.x as int) * (SCALE as int), sqrt_floor(norm_sq_raw(a)))),
            y: cl(tdiv((a.y as int) * (SCALE as int), sqrt_floor(norm_sq_raw(a)))),
        }
    }
}

proof fn lemma_square_bounds(v: int)
    requires
        i64::MIN as int <= v <= i64::MAX as int,
    ensures
        0 <= v * v,
        v * v <= 0x4000_0000_0000_0000_0000_0000_0000_0000,
        v * v == abs_int(v) * abs_int(v),
{
    assert(0 <= v * v && v * v <= 0x4000_0000_0000_0000_0000_0000_0000_0000 && v * v == abs_int(
        v,
    ) * abs_int(v)) by (nonlinear_arith)
        requires
            -0x8000_0000_0000_0000 <= v <= 0x7fff_ffff_ffff_ffff,
    ;
}

impl Vec2 {
    pub fn new(x: i64, y: i64) -> (r: Vec2)
        ensures
            r == (Vec2 { x, y }),
    {
        Vec2 { x, y }
    }

    pub fn zero() -> (r: Vec2)
        ensures
            r == v2_zero(),
    {
        Vec2 { x: 0, y: 0 }
    }

    pub fn plus(&self, o: &Vec2) -> (r: Vec2)
        ensures
            r == v2_add(*self, *o),
    {
        Vec2 { x: sat_add(self.x, o.x), y: sat_add(self.y, o.y) }
    }

    pub fn minus(&self, o: &Vec2) -> (r: Vec2)
        ensures
            r == v2_sub(*self, *o),
    {
        Vec2 { x: crate::fixed::sat_sub(self.x, o.x), y: crate::fixed::sat_sub(self.y, o.y) }
    }

    pub fn negated(&self) -> (r: Vec2)
        ensures
            r == v2_neg(*self),
    {
        Vec2 { x: crate::fixed::sat_sub(0, self.x), y: crate::fixed::sat_sub(0, self.y) }
    }

    pub fn scaled(&self, s: i64) -> (r: Vec2)
        ensures
            r == v2_scale(*self, s as int),
    {
        Vec2 { x: fxmul(self.x, s), y: fxmul(self.y, s) }
    }

    pub fn divided(&self, s: i64) -> (r: Vec2)
        ensures
            r == v2_div(*self, s as int),
    {
        Vec2 { x: fxdiv(self.x, s), y: fxdiv(self.y, s) }
    }

    pub fn dot(&self, o: &Vec2) -> (r: i64)
        ensures
            r as int == v2_dot(*self, *o),
    {
        sat_add(fxmul(self.x, o.x), fxmul(self.y, o.y))
    }

    pub fn norm_squared(&self) -> (r: i64)
        ensures
            r as int == v2_norm_sq(*self),
    {
        sat_add(fxmul(self.x, self.x), fxmul(self.y, self.y))
    }

    /// The exact sum of squared components, as a wide unsigned value.
    fn raw_norm_sq(&self) -> (r: u128)
        ensures
            r as int == norm_sq_raw(*self),
    {
        proof {
            lemma_square_bounds(self.x as int);
            lemma_square_bounds(self.y as int);
        }
        let ax: u64 = if self.x < 0 {
            (-(self.x as i128)) as u64
        } else {
            self.x as u64
        };
        let ay: u64 = if self.y < 0 {
            (-(self.y as i128)) as u64
        } else {
            self.y as u64
        };
        proof {
            assert(ax as int == abs_int(self.x as int));
            assert(ay as int == abs_int(self.y as int));
            assert((ax as int) * (ax as int) == abs_int(self.x as int) * abs_int(self.x as int));
            assert((ay as int) * (ay as int) == abs_int(self.y as int) * abs_int(self.y as int));
        }
        (ax as u128) * (ax as u128) + (ay as u128) * (ay as u128)
    }

    pub fn norm(&self) -> (r: i64)
        ensures
            r as int == v2_norm(*self),
    {
        let nsq: u128 = self.raw_norm_sq();
        let n: u64 = isqrt(nsq);
        proof {
            lemma_sqrt_floor_of(nsq as int, n as int);
        }
        clamp128(n as i128)
    }

    /// The unit direction, with the zero vector mapped to zero.
    pub fn normalize(&self) -> (r: Vec2)
        ensures
            r == v2_dir(*self),
    {
        let nsq: u128 = self.raw_norm_sq();
        if nsq == 0 {
            Vec2 { x: 0, y: 0 }
        } else {
            let n: u64 = isqrt(nsq);
            proof {
                lemma_sqrt_floor_of(nsq as int, n as int);
                assert(n >= 1);
                crate::fixed::lemma_i64_mul_fits(self.x as int, SCALE as int);
                crate::fixed::lemma_i64_mul_fits(self.y as int, SCALE as int);
            }
            let qx: i128 = tdiv128((self.x as i128) * (SCALE as i128), n as i128);
            let qy: i128 = tdiv128((self.y as i128) * (SCALE as i128), n as i128);
            Vec2 { x: clamp128(qx), y: clamp128(qy) }
        }
    }
}

/// The raw squared norm vanishes exactly on the zero vector.
pub proof fn lemma_norm_sq_raw_zero(v: Vec2)
    ensures
        (norm_sq_raw(v) == 0) <==> (v.x == 0 && v.y == 0),
{
    assert((v.x as int) * (v.x as int) >= 0 && (v.y as int) * (v.y as int) >= 0 && (v.x != 0
        ==> (v.x as int) * (v.x as int) > 0) && (v.y != 0 ==> (v.y as int) * (v.y as int) > 0))
        by (nonlinear_arith);
}

proof fn lemma_sqrt_floor_of(x: int, r: int)
    requires
        is_sqrt_floor(x, r),
    ensures
        sqrt_floor(x) == r,
        x >= 1 ==> r >= 1,
{
    assert(exists|r2: int| is_sqrt_floor(x, r2));
    crate::fixed::lemma_sqrt_floor_unique(x, r, sqrt_floor(x));
    if x >= 1 && r == 0 {
        assert(x < 1);
    }
}

} // verus!
