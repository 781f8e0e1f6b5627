//! Fixed-point scalar arithmetic: signed 64-bit values in thousandths of a
//! unit, with truncating division, saturation at the limits of `i64`, and an
//! exact integer square root.

use vstd::prelude::*;

verus! {

/// Number of fixed-point sub-units per whole unit.
pub const SCALE: i64 = 1000;

/// Saturation of an unbounded integer into the range of `i64`.
pub open spec fn clamp_i64(x: int) -> int {
    if x > i64::MAX as int {
        i64::MAX as int
    } else if x < i64::MIN as int {
        i64::MIN as int
    } else {
        x
    }
}

/// Saturated value, as the machine word it fits in.
pub open spec fn cl(x: int) -> i64 {
    clamp_i64(x) as i64
}

pub open spec fn abs_int(x: int) -> int {
    if x >= 0 {
        x
    } else {
        -x
    }
}

/// Division rounding toward zero, as Rust's integer `/` rounds; division by
/// zero is defined to yield zero, the fallback for degenerate geometry.
pub open spec fn tdiv(a: int, b: int) -> int {
    if b == 0 {
        0
    } else if (a >= 0) == (b >= 0) {
        abs_int(a) / abs_int(b)
    } else {
        -(abs_int(a) / abs_int(b))
    }
}

/// Product of two fixed-point scalars, truncated and saturated.
pub open spec fn fx_mul(a: int, b: int) -> int {
    clamp_i64(tdiv(a * b, SCALE as int))
}

/// Quotient of two fixed-point scalars, truncated and saturated.
pub open spec fn fx_div(a: int, b: int) -> int {
    clamp_i64(tdiv(a * (SCALE as int), b))
}

pub proof fn lemma_i64_mul_fits(a: int, b: int)
    requires
        i64::MIN as int <= a <= i64::MAX as int,
        i64::MIN as int <= b <= i64::MAX as int,
    ensures
        (i128::MIN as int) < a * b,
        a * b <= i128::MAX as int,
{
    assert((i128::MIN as int) < a * b && a * b <= i128::MAX as int) by (nonlinear_arith)
        requires
            -0x8000_0000_0000_0000 <= a <= 0x7fff_ffff_ffff_ffff,
            -0x8000_0000_0000_0000 <= b <= 0x7fff_ffff_ffff_ffff,
    ;
}

/// Saturation of a wide intermediate into `i64`.
pub fn clamp128(x: i128) -> (r: i64)
    ensures
        r as int == clamp_i64(x as int),
{
    if x > i64::MAX as i128 {
        i64::MAX
    } else if x < i64::MIN as i128 {
        i64::MIN
    } else {
        x as i64
    }
}

/// Division of wide intermediates rounding toward zero, with division by
/// zero yielding zero.
pub fn tdiv128(a: i128, b: i128) -> (r: i128)
    requires
        a != i128::MIN,
        b != i128::MIN,
    ensures
        r as int == tdiv(a as int, b as int),
{
    if b == 0 {
        0
    } else {
        let am: u128 = if a < 0 {
            (-a) as u128
        } else {
            a as u128
        };
        let bm: u128 = if b < 0 {
            (-b) as u128
        } else {
            b as u128
        };
        let q: u128 = am / bm;
        proof {
            assert(am as int == abs_int(a as int));
            assert(bm as int == abs_int(b as int));
            assert(q as int == abs_int(a as int) / abs_int(b as int));
            assert(bm >= 1);
            assert(q <= am) by (nonlinear_arith)
                requires
                    bm >= 1,
                    q == am / bm,
            ;
        }
        if (a < 0) == (b < 0) {
            q as i128
        } else {
            -(q as i128)
        }
    }
}

/// Saturating sum of two fixed-point scalars.
pub fn sat_add(a: i64, b: i64) -> (r: i64)
    ensures
        r as int == clamp_i64(a as int + b as int),
{
    clamp128(a as i128 + b as i128)
}

/// Saturating difference of two fixed-point scalars.
pub fn sat_sub(a: i64, b: i64) -> (r: i64)
    ensures
        r as int == clamp_i64(a as int - b as int),
{
    clamp128(a as i128 - b as i128)
}

/// Exact product of two fixed-point scalars, truncated and saturated.
pub fn fxmul(a: i64, b: i64) -> (r: i64)
    ensures
        r as int == fx_mul(a as int, b as int),
{
    proof {
        lemma_i64_mul_fits(a as int, b as int);
    }
    let p: i128 = (a as i128) * (b as i128);
    let q: i128 = tdiv128(p, SCALE as i128);
    clamp128(q)
}

/// Exact quotient of two fixed-point scalars, truncated and saturated.
pub fn fxdiv(a: i64, b: i64) -> (r: i64)
    ensures
        r as int == fx_div(a as int, b as int),
{
    proof {
        lemma_i64_mul_fits(a as int, SCALE as int);
    }
    let p: i128 = (a as i128) * (SCALE as i128);
    let q: i128 = tdiv128(p, b as i128);
    clamp128(q)
}

/// Truncating division is an odd function of its dividend.
pub proof fn lemma_tdiv_odd(a: int, b: int)
    ensures
        tdiv(-a, b) == -tdiv(a, b),
{
    if b != 0 {
        assert(abs_int(-a) == abs_int(a));
        if a == 0 {
            vstd::arithmetic::div_mod::lemma_div_of0(abs_int(b));
        }
    }
}

/// Saturation is an odd function away from the asymmetric end of the
/// range.
pub proof fn lemma_clamp_neg(x: int)
    requires
        abs_int(x) <= i64::MAX as int,
    ensures
        clamp_i64(-x) == -clamp_i64(x),
{
}

/// Square root of a non-positive fixed-point scalar is defined as zero.
pub open spec fn fx_sqrt(a: int) -> int {
    if a <= 0 {
        0
    } else {
        clamp_i64(sqrt_floor(a * (SCALE as int)))
    }
}

pub open spec fn is_sqrt_floor(x: int, r: int) -> bool {
    0 <= r && r * r <= x && x < (r + 1) * (r + 1)
}

/// The integer square root: the unique `r >= 0` with `r * r <= x < (r+1)^2`.
pub open spec fn sqrt_floor(x: int) -> int {
    choose|r: int| is_sqrt_floor(x, r)
}

pub proof fn lemma_sqrt_floor_unique(x: int, r1: int, r2: int)
    requires
        is_sqrt_floor(x, r1),
        is_sqrt_floor(x, r2),
    ensures
        r1 == r2,
{
    if r1 < r2 {
        assert((r1 + 1) * (r1 + 1) <= r2 * r2) by (nonlinear_arith)
            requires
                0 <= r1,
                r1 + 1 <= r2,
        ;
    }
    if r2 < r1 {
        assert((r2 + 1) * (r2 + 1) <= r1 * r1) by (nonlinear_arith)
            requires
                0 <= r2,
                r2 + 1 <= r1,
        ;
    }
}

/// Exact floor of the square root of an unsigned 128-bit value, by binary
/// search on the answer.
pub fn isqrt(x: u128) -> (r: u64)
    ensures
        is_sqrt_floor(x as int, r as int),
        r as int == sqrt_floor(x as int),
{
    let mut lo: u128 = 0;
    let mut hi: u128 = 0x1_0000_0000_0000_0000u128;
    proof {
        assert((hi as int) * (hi as int) > u128::MAX as int) by (nonlinear_arith)
            requires
                hi == 0x1_0000_0000_0000_0000u128,
        ;
    }
    while lo + 1 < hi
        invariant
            lo < hi,
            hi <= 0x1_0000_0000_0000_0000u128,
            (lo as int) * (lo as int) <= x as int,
            (x as int) < (hi as int) * (hi as int),
        decreases hi - lo,
    {
        let mid: u128 = lo + (hi - lo) / 2;
        proof {
            assert(mid < hi);
            assert(lo < mid);
            assert((mid as int) * (mid as int) <= u128::MAX as int) by (nonlinear_arith)
                requires
                    mid < 0x1_0000_0000_0000_0000u128,
            ;
        }
        if mid * mid <= x {
            lo = mid;
        } else {
            hi = mid;
        }
    }
    proof {
        assert(is_sqrt_floor(x as int, lo as int));
        assert(exists|r2: int| is_sqrt_floor(x as int, r2));
        lemma_sqrt_floor_unique(x as int, lo as int, sqrt_floor(x as int));
        assert(lo < 0x1_0000_0000_0000_0000u128);
    }
    lo as u64
}

/// Exact square root of a fixed-point scalar, truncated and saturated.
pub fn fxsqrt(a: i64) -> (r: i64)
    ensures
        r as int == fx_sqrt(a as int),
{
    if a <= 0 {
        0
    } else {
        proof {
            assert((a as int) * (SCALE as int) <= u128::MAX as int) by (nonlinear_arith)
                requires
                    0 < a <= 0x7fff_ffff_ffff_ffff,
            ;
        }
        let w: u128 = (a as u128) * (SCALE as u128);
        let n: u64 = isqrt(w);
        proof {
            assert(w as int == (a as int) * (SCALE as int));
        }
        clamp128(n as i128)
    }
}

} // verus!
