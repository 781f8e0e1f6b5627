//! Configuration constants of the simulation, in fixed point, and the
//! critical-damping coefficient derived from the restitution ratio.

use vstd::prelude::*;
use crate::fixed::{clamp_i64, fx_mul, fx_sqrt, fxmul, fxsqrt, sat_add};

verus! {

/// The fixed timestep: 50 milliseconds, 0.05 of a second.
pub const DT: i64 = 50;

/// Downward gravitational acceleration, 9.81 units per squared second.
pub const GRAVITY: i64 = 9810;

/// `-ln(r)` for the configured restitution ratio `r = 1/100`, about 4.605.
pub const NEG_LN_RESTITUTION: i64 = 4605;

/// The square of pi, about 9.870.
pub const PI_SQUARED: i64 = 9870;

/// The critical-damping-adjacent coefficient for penalty collisions:
/// `-ln(r) * sqrt(pi^2 + ln(r)^2)`, evaluated in fixed point from the
/// restitution ratio `r`.
pub open spec fn damping_fx() -> int {
    fx_mul(
        NEG_LN_RESTITUTION as int,
        fx_sqrt(
            clamp_i64(
                PI_SQUARED as int + fx_mul(NEG_LN_RESTITUTION as int, NEG_LN_RESTITUTION as int),
            ),
        ),
    )
}

/// The damping coefficient as a runtime value. It is a pure function of
/// compile-time constants, so every call returns the same scalar and it can
/// be shared freely across threads.
pub fn damping_coefficient() -> (r: i64)
    ensures
        r as int == damping_fx(),
{
    let l2: i64 = fxmul(NEG_LN_RESTITUTION, NEG_LN_RESTITUTION);
    let s: i64 = sat_add(PI_SQUARED, l2);
    let root: i64 = fxsqrt(s);
    fxmul(NEG_LN_RESTITUTION, root)
}

} // verus!
