//! The shared controller contract: the rectangular simulation domain, the
//! per-frame draw data, and the common parameter-acquisition helper that
//! places a requested number of particles on a jittered grid.

use vstd::prelude::*;
use rand::distributions::{Distribution, Uniform};
use vstd::arithmetic::div_mod::{
    lemma_div_is_ordered, lemma_div_multiples_vanish, lemma_fundamental_div_mod,
    lemma_fundamental_div_mod_converse, lemma_mod_bound,
};
use crate::fixed::{clamp128, clamp_i64, fx_mul, is_sqrt_floor, isqrt, sqrt_floor, tdiv, tdiv128};
use crate::particle::{Particle, all_valid};
use crate::vec2::{Vec2, v2_zero};

verus! {

/// The immutable rectangular domain: width, then height, in fixed point.
#[derive(Clone, Copy, PartialEq, Eq, Structural, Debug)]
pub struct SimulationBounds(pub i64, pub i64);

/// A well-formed domain has positive extent on both axes.
pub open spec fn bounds_wf(b: SimulationBounds) -> bool {
    b.0 > 0 && b.1 > 0
}

impl Default for SimulationBounds {
    fn default() -> (r: Self)
        ensures
            r.0 == 0 && r.1 == 0,
    {
        SimulationBounds(0, 0)
    }
}

/// The radius of a grid-placed body.
pub const BODY_RADIUS: i64 = 10000;

/// The mass of a grid-placed body.
pub const BODY_MASS: i64 = 1000000;

/// Relies on rand's `Uniform` distribution over an inclusive range,
/// sampled with `thread_rng`: the sample lies within the range, and
/// `new_inclusive` accepts any `lo <= hi`.
#[verifier::external_body]
fn sample_uniform(lo: i64, hi: i64) -> (r: i64)
    requires
        lo <= hi,
    ensures
        lo <= r <= hi,
{
    Uniform::from(lo..=hi).sample(&mut rand::thread_rng())
}

/// The smallest `g >= 0` with `n <= g * g`.
pub open spec fn ceil_sqrt(n: int) -> int {
    if sqrt_floor(n) * sqrt_floor(n) < n {
        sqrt_floor(n) + 1
    } else {
        sqrt_floor(n)
    }
}

/// How many bodies fit: the grid side is the smaller domain side divided
/// by a body's diameter, less one, and the grid is square.
pub open spec fn max_body_count_spec(b: SimulationBounds) -> int {
    let nx = tdiv(b.0 as int, 2 * (BODY_RADIUS as int)) - 1;
    let ny = tdiv(b.1 as int, 2 * (BODY_RADIUS as int)) - 1;
    let m = if nx <= ny {
        nx
    } else {
        ny
    };
    if m <= 0 {
        0
    } else if m * m > usize::MAX as int {
        usize::MAX as int
    } else {
        m * m
    }
}

/// The upper bound on the body count a domain admits.
pub fn max_body_count(bounds: &SimulationBounds) -> (r: usize)
    requires
        bounds_wf(*bounds),
    ensures
        r as int == max_body_count_spec(*bounds),
{
    let nx: i128 = tdiv128(bounds.0 as i128, 2 * (BODY_RADIUS as i128)) - 1;
    let ny: i128 = tdiv128(bounds.1 as i128, 2 * (BODY_RADIUS as i128)) - 1;
    let m: i128 = if nx <= ny {
        nx
    } else {
        ny
    };
    if m <= 0 {
        0
    } else {
        proof {
            assert(m * m <= 0x4000_0000_0000_0000_0000_0000_0000_0000 && m * m >= 0)
                by (nonlinear_arith)
                requires
                    0 < m <= 0x8000_0000_0000_0000,
            ;
        }
        let sq: i128 = m * m;
        if sq > usize::MAX as i128 {
            usize::MAX
        } else {
            sq as usize
        }
    }
}

/// A particle of `default_fetch_parameters` sits inside its own grid
/// cell: within the jitter window around the cell's centre, on both axes.
pub open spec fn in_cell(p: Particle, b: SimulationBounds, g: int, n: int) -> bool {
    let gdx = tdiv(b.0 as int, g + 1);
    let gdy = tdiv(b.1 as int, g + 1);
    let hx = tdiv(gdx, 2) - BODY_RADIUS as int;
    let hy = tdiv(gdy, 2) - BODY_RADIUS as int;
    let gx = n % g;
    let gy = n / g;
    (gx + 1) * gdx - hx <= p.position.x as int <= (gx + 1) * gdx + hx && (gy + 1) * gdy - hy
        <= p.position.y as int <= (gy + 1) * gdy + hy
}

/// For a side of the domain that admits a `g + 1` grid division, the cell
/// pitch is at least a body's diameter, and the whole grid fits inside
/// the side.
proof fn lemma_grid_side(b0: int, g: int)
    requires
        b0 > 0,
        g >= 1,
        2 * (BODY_RADIUS as int) * (g + 1) <= b0,
    ensures
        b0 / (g + 1) >= 2 * (BODY_RADIUS as int),
        (g + 1) * (b0 / (g + 1)) <= b0,
{
    let d = 2 * (BODY_RADIUS as int);
    lemma_div_is_ordered(d * (g + 1), b0, g + 1);
    lemma_div_multiples_vanish(d, g + 1);
    assert(d * (g + 1) == (d * (g + 1)) / (g + 1) * (g + 1) + 0) by (nonlinear_arith);
    lemma_fundamental_div_mod(b0, g + 1);
    lemma_mod_bound(b0, g + 1);
}

/// The ceiling square root of an admissible body count does not exceed
/// the grid side the domain admits.
proof fn lemma_ceil_sqrt_le(n: int, gf: int, m: int)
    requires
        0 <= n,
        is_sqrt_floor(n, gf),
        n <= m * m,
        0 <= m,
    ensures
        ceil_sqrt(n) <= m,
{
    crate::fixed::lemma_sqrt_floor_unique(n, gf, sqrt_floor(n));
    if ceil_sqrt(n) > m {
        if sqrt_floor(n) * sqrt_floor(n) < n {
            assert(gf >= m);
            assert(gf * gf >= m * m) by (nonlinear_arith)
                requires
                    gf >= m,
                    m >= 0,
            ;
        } else {
            assert(gf >= m + 1);
            assert((m + 1) * (m + 1) <= gf * gf) by (nonlinear_arith)
                requires
                    0 <= m + 1 <= gf,
            ;
            assert(m * m < (m + 1) * (m + 1)) by (nonlinear_arith)
                requires
                    m >= 0,
            ;
        }
    }
}

/// A truncating quotient of a non-negative value by a positive one is
/// non-negative and monotone in the dividend.
proof fn lemma_tdiv_nonneg_mono(a1: int, a2: int, b: int)
    requires
        0 <= a1 <= a2,
        b > 0,
    ensures
        0 <= tdiv(a1, b) <= tdiv(a2, b),
{
    lemma_div_is_ordered(a1, a2, b);
    vstd::arithmetic::div_mod::lemma_div_pos_is_pos(a1, b);
}

/// Two bodies of the placement radius whose centres are at least a
/// diameter apart on one axis do not overlap.
proof fn lemma_axis_gap_no_overlap(p1: Particle, p2: Particle)
    requires
        p1.radius == BODY_RADIUS,
        p2.radius == BODY_RADIUS,
        crate::fixed::abs_int(p1.position.x - p2.position.x) <= i64::MAX as int,
        crate::fixed::abs_int(p1.position.y - p2.position.y) <= i64::MAX as int,
        crate::fixed::abs_int(p1.position.x - p2.position.x) >= 2 * (BODY_RADIUS as int)
            || crate::fixed::abs_int(p1.position.y - p2.position.y) >= 2 * (BODY_RADIUS as int),
    ensures
        !crate::particle::disks_overlap(p1, p2),
{
    let scale = crate::fixed::SCALE as int;
    let dx = p1.position.x - p2.position.x;
    let dy = p1.position.y - p2.position.y;
    let d = crate::vec2::v2_sub(p1.position, p2.position);
    assert(d.x as int == dx && d.y as int == dy);
    let diam = 2 * (BODY_RADIUS as int);
    assert(clamp_i64(p1.radius + p2.radius) == diam);
    assert(diam * diam == 400000000) by (nonlinear_arith)
        requires
            diam == 20000,
    ;
    lemma_fundamental_div_mod_converse(400000000, 1000, 400000, 0);
    assert(tdiv(400000000, scale) == 400000);
    assert(fx_mul(diam, diam) == 400000);
    assert((dx * dx) >= 0 && (dy * dy) >= 0) by (nonlinear_arith);
    if crate::fixed::abs_int(dx) >= diam {
        assert(dx * dx >= diam * diam) by (nonlinear_arith)
            requires
                crate::fixed::abs_int(dx) >= diam,
                diam > 0,
        ;
        lemma_tdiv_nonneg_mono(diam * diam, dx * dx, scale);
        lemma_tdiv_nonneg_mono(0, dy * dy, scale);
    } else {
        assert(dy * dy >= diam * diam) by (nonlinear_arith)
            requires
                crate::fixed::abs_int(dy) >= diam,
                diam > 0,
        ;
        lemma_tdiv_nonneg_mono(diam * diam, dy * dy, scale);
        lemma_tdiv_nonneg_mono(0, dx * dx, scale);
    }
    assert(crate::vec2::v2_norm_sq(d) >= 400000);
}

/// Two distinct bodies of the jittered grid placement sit in distinct
/// cells, and the jitter margin keeps them at least a diameter apart on
/// the axis where their cells differ: the initial disks never overlap.
proof fn lemma_grid_no_overlap(
    p1: Particle,
    p2: Particle,
    b: SimulationBounds,
    g: int,
    n1: int,
    n2: int,
)
    requires
        bounds_wf(b),
        g >= 1,
        p1.radius == BODY_RADIUS,
        p2.radius == BODY_RADIUS,
        0 <= n1,
        0 <= n2,
        n1 != n2,
        2 * (BODY_RADIUS as int) <= tdiv(b.0 as int, g + 1),
        2 * (BODY_RADIUS as int) <= tdiv(b.1 as int, g + 1),
        in_cell(p1, b, g, n1),
        in_cell(p2, b, g, n2),
    ensures
        !crate::particle::disks_overlap(p1, p2),
{
    let gdx = tdiv(b.0 as int, g + 1);
    let gdy = tdiv(b.1 as int, g + 1);
    let hx = tdiv(gdx, 2) - BODY_RADIUS as int;
    let hy = tdiv(gdy, 2) - BODY_RADIUS as int;
    let diam = 2 * (BODY_RADIUS as int);
    lemma_fundamental_div_mod(gdx, 2);
    lemma_mod_bound(gdx, 2);
    lemma_fundamental_div_mod(gdy, 2);
    lemma_mod_bound(gdy, 2);
    assert(gdx - 2 * hx >= diam);
    assert(gdy - 2 * hy >= diam);
    lemma_fundamental_div_mod(n1, g);
    lemma_mod_bound(n1, g);
    lemma_fundamental_div_mod(n2, g);
    lemma_mod_bound(n2, g);
    let gx1 = n1 % g;
    let gy1 = n1 / g;
    let gx2 = n2 % g;
    let gy2 = n2 / g;
    if gx1 == gx2 && gy1 == gy2 {
        assert(n1 == g * gy1 + gx1);
        assert(n2 == g * gy2 + gx2);
        assert(false);
    }
    lemma_fundamental_div_mod(b.0 as int, g + 1);
    lemma_mod_bound(b.0 as int, g + 1);
    lemma_fundamental_div_mod(b.1 as int, g + 1);
    lemma_mod_bound(b.1 as int, g + 1);
    assert(0 <= p1.position.x as int && 0 <= p2.position.x as int && 0 <= p1.position.y as int
        && 0 <= p2.position.y as int) by (nonlinear_arith)
        requires
            0 <= gx1,
            0 <= gx2,
            0 <= gy1,
            0 <= gy2,
            gdx >= 0,
            gdy >= 0,
            hx >= 0,
            hy >= 0,
            2 * hx <= gdx,
            2 * hy <= gdy,
            (gx1 + 1) * gdx - hx <= p1.position.x as int,
            (gx2 + 1) * gdx - hx <= p2.position.x as int,
            (gy1 + 1) * gdy - hy <= p1.position.y as int,
            (gy2 + 1) * gdy - hy <= p2.position.y as int,
    ;
    assert(crate::fixed::abs_int(p1.position.x - p2.position.x) <= i64::MAX as int);
    assert(crate::fixed::abs_int(p1.position.y - p2.position.y) <= i64::MAX as int);
    if gx1 != gx2 {
        let c = gx1 - gx2;
        assert(crate::fixed::abs_int(c) >= 1);
        assert((gx1 + 1) * gdx - (gx2 + 1) * gdx == c * gdx) by (nonlinear_arith)
            requires
                c == gx1 - gx2,
        ;
        assert(crate::fixed::abs_int(c * gdx) >= gdx) by (nonlinear_arith)
            requires
                crate::fixed::abs_int(c) >= 1,
                gdx >= 0,
        ;
        assert(crate::fixed::abs_int(p1.position.x - p2.position.x) >= gdx - 2 * hx);
        lemma_axis_gap_no_overlap(p1, p2);
    } else {
        let c = gy1 - gy2;
        assert(crate::fixed::abs_int(c) >= 1);
        assert((gy1 + 1) * gdy - (gy2 + 1) * gdy == c * gdy) by (nonlinear_arith)
            requires
                c == gy1 - gy2,
        ;
        assert(crate::fixed::abs_int(c * gdy) >= gdy) by (nonlinear_arith)
            requires
                crate::fixed::abs_int(c) >= 1,
                gdy >= 0,
        ;
        assert(crate::fixed::abs_int(p1.position.y - p2.position.y) >= gdy - 2 * hy);
        lemma_axis_gap_no_overlap(p1, p2);
    }
}

/// Places `body_count` bodies of fixed radius and mass on a regular
/// `g`-by-`g` grid sized to the bounds, `g` the ceiling square root of the
/// count, with jitter sampled uniformly within each cell minus the radius
/// margin: the jitter avoids perfect symmetry, the margin keeps the
/// initial disks from overlapping.
pub fn default_fetch_parameters(bounds: &SimulationBounds, body_count: usize) -> (r: Vec<
    Particle,
>)
    requires
        bounds_wf(*bounds),
        body_count as int <= max_body_count_spec(*bounds),
    ensures
        r@.len() == body_count as int,
        all_valid(r@),
        forall|n: int|
            0 <= n < body_count as int ==> {
                let p = #[trigger] r@[n];
                p.mass == BODY_MASS && p.radius == BODY_RADIUS && p.velocity == v2_zero()
                    && p.force_accumulator == v2_zero() && in_cell(
                    p,
                    *bounds,
                    ceil_sqrt(body_count as int),
                    n,
                )
            },
        forall|n1: int, n2: int|
            0 <= n1 < n2 < body_count as int ==> !crate::particle::disks_overlap(
                r@[n1],
                r@[n2],
            ),
{
    let mut particles: Vec<Particle> = Vec::new();
    if body_count == 0 {
        return particles;
    }
    let gf: u64 = isqrt(body_count as u128);
    proof {
        assert((gf as int) < 0x1_0000_0000_0000 && (body_count as int) < (gf as int + 1) * (
        gf as int + 1) ==> body_count as int <= (gf as int + 1) * (gf as int + 1))
            by (nonlinear_arith);
        assert((gf as int) < 0x1_0000_0000_0000) by (nonlinear_arith)
            requires
                (gf as int) * (gf as int) <= body_count as int,
                body_count as int <= usize::MAX as int,
                gf >= 0,
        ;
    }
    let g: u64 = if (gf as u128) * (gf as u128) < (body_count as u128) {
        gf + 1
    } else {
        gf
    };
    proof {
        assert(g as int == ceil_sqrt(body_count as int));
        assert(g >= 1) by (nonlinear_arith)
            requires
                body_count >= 1,
                g == if (gf as int) * (gf as int) < body_count as int {
                    gf as int + 1
                } else {
                    gf as int
                },
                gf >= 0,
        ;
        assert(body_count as int <= (g as int) * (g as int)) by (nonlinear_arith)
            requires
                is_sqrt_floor(body_count as int, gf as int),
                g == if (gf as int) * (gf as int) < body_count as int {
                    gf as int + 1
                } else {
                    gf as int
                },
        ;
        let d = 2 * (BODY_RADIUS as int);
        let nx = tdiv(bounds.0 as int, d) - 1;
        let ny = tdiv(bounds.1 as int, d) - 1;
        let m = if nx <= ny {
            nx
        } else {
            ny
        };
        assert(m >= 1);
        lemma_ceil_sqrt_le(body_count as int, gf as int, m);
        assert(g as int + 1 <= tdiv(bounds.0 as int, d));
        assert(g as int + 1 <= tdiv(bounds.1 as int, d));
        lemma_fundamental_div_mod(bounds.0 as int, d);
        lemma_mod_bound(bounds.0 as int, d);
        lemma_fundamental_div_mod(bounds.1 as int, d);
        lemma_mod_bound(bounds.1 as int, d);
        assert(d * (g as int + 1) <= d * (bounds.0 as int / d)) by (nonlinear_arith)
            requires
                g as int + 1 <= bounds.0 as int / d,
                d > 0,
        ;
        assert(d * (g as int + 1) <= d * (bounds.1 as int / d)) by (nonlinear_arith)
            requires
                g as int + 1 <= bounds.1 as int / d,
                d > 0,
        ;
        assert(bounds.0 as int / d == tdiv(bounds.0 as int, d));
        lemma_grid_side(bounds.0 as int, g as int);
        lemma_grid_side(bounds.1 as int, g as int);
    }
    let gdx: i64 = clamp128(tdiv128(bounds.0 as i128, (g + 1) as i128));
    let gdy: i64 = clamp128(tdiv128(bounds.1 as i128, (g + 1) as i128));
    proof {
        assert(gdx as int == tdiv(bounds.0 as int, g as int + 1));
        assert(gdy as int == tdiv(bounds.1 as int, g as int + 1));
    }
    let hx: i64 = clamp128(tdiv128(gdx as i128, 2)) - BODY_RADIUS;
    let hy: i64 = clamp128(tdiv128(gdy as i128, 2)) - BODY_RADIUS;
    proof {
        lemma_fundamental_div_mod(gdx as int, 2);
        lemma_mod_bound(gdx as int, 2);
        lemma_fundamental_div_mod(gdy as int, 2);
        lemma_mod_bound(gdy as int, 2);
        assert(hx >= 0);
        assert(hy >= 0);
    }
    let mut x: u64 = 0;
    let mut y: u64 = 0;
    let mut n: usize = 0;
    while n < body_count
        invariant
            0 < body_count,
            n <= body_count,
            bounds_wf(*bounds),
            g >= 1,
            g as int == ceil_sqrt(body_count as int),
            body_count as int <= (g as int) * (g as int),
            gdx as int == tdiv(bounds.0 as int, g as int + 1),
            gdy as int == tdiv(bounds.1 as int, g as int + 1),
            gdx as int >= 2 * (BODY_RADIUS as int),
            gdy as int >= 2 * (BODY_RADIUS as int),
            (g as int + 1) * (gdx as int) <= bounds.0 as int,
            (g as int + 1) * (gdy as int) <= bounds.1 as int,
            hx as int == tdiv(gdx as int, 2) - BODY_RADIUS as int,
            hy as int == tdiv(gdy as int, 2) - BODY_RADIUS as int,
            0 <= hx,
            0 <= hy,
            n as int == (y as int) * (g as int) + x as int,
            0 <= x as int <= g as int,
            particles@.len() == n as int,
            forall|q: int|
                0 <= q < n as int ==> {
                    let p = #[trigger] particles@[q];
                    p.mass == BODY_MASS && p.radius == BODY_RADIUS && p.velocity == v2_zero()
                        && p.force_accumulator == v2_zero() && in_cell(
                        p,
                        *bounds,
                        ceil_sqrt(body_count as int),
                        q,
                    )
                },
        decreases body_count - n,
    {
        if x == g {
            proof {
                assert((y as int) + 1 <= n as int) by (nonlinear_arith)
                    requires
                        n as int == (y as int) * (g as int) + (x as int),
                        x == g,
                        g >= 1,
                        y >= 0,
                ;
                assert((y as int + 1) * (g as int) == (y as int) * (g as int) + (g as int))
                    by (nonlinear_arith);
            }
            x = 0;
            y = y + 1;
        }
        proof {
            assert(x < g);
            assert((y as int) < (g as int)) by (nonlinear_arith)
                requires
                    (y as int) * (g as int) + (x as int) < (g as int) * (g as int),
                    0 <= x as int,
                    g as int >= 1,
                    n as int == (y as int) * (g as int) + (x as int),
                    (n as int) < body_count as int,
                    body_count as int <= (g as int) * (g as int),
                    0 <= y as int,
            ;
            assert((y as int) * (g as int) <= n as int) by (nonlinear_arith)
                requires
                    n as int == (y as int) * (g as int) + x as int,
                    x >= 0,
            ;
            assert((x as int + 1) * (gdx as int) <= (g as int) * (gdx as int))
                by (nonlinear_arith)
                requires
                    x as int + 1 <= g as int,
                    gdx as int >= 0,
            ;
            assert((x as int + 1) * (gdx as int) >= gdx as int) by (nonlinear_arith)
                requires
                    x as int + 1 >= 1,
                    gdx as int >= 0,
            ;
            assert((g as int) * (gdx as int) + gdx as int == (g as int + 1) * (gdx as int))
                by (nonlinear_arith);
            assert((y as int + 1) * (gdy as int) <= (g as int) * (gdy as int))
                by (nonlinear_arith)
                requires
                    y as int + 1 <= g as int,
                    gdy as int >= 0,
            ;
            assert((y as int + 1) * (gdy as int) >= gdy as int) by (nonlinear_arith)
                requires
                    y as int + 1 >= 1,
                    gdy as int >= 0,
            ;
            assert((g as int) * (gdy as int) + gdy as int == (g as int + 1) * (gdy as int))
                by (nonlinear_arith);
            lemma_fundamental_div_mod(gdx as int, 2);
            lemma_mod_bound(gdx as int, 2);
            lemma_fundamental_div_mod(gdy as int, 2);
            lemma_mod_bound(gdy as int, 2);
        }
        let jx: i64 = sample_uniform(-hx, hx);
        let jy: i64 = sample_uniform(-hy, hy);
        let px: i64 = clamp128(((x + 1) as i128) * (gdx as i128) + (jx as i128));
        let py: i64 = clamp128(((y + 1) as i128) * (gdy as i128) + (jy as i128));
        particles.push(Particle::new(BODY_MASS, BODY_RADIUS, Vec2::new(px, py)));
        proof {
            assert(px as int == (x as int + 1) * (gdx as int) + jx as int);
            assert(py as int == (y as int + 1) * (gdy as int) + jy as int);
            assert((y as int) < (g as int)) by (nonlinear_arith)
                requires
                    (y as int) * (g as int) + (x as int) < (g as int) * (g as int),
                    0 <= x as int,
                    g as int >= 1,
                    n as int == (y as int) * (g as int) + x as int,
                    (n as int) < body_count as int,
                    body_count as int <= (g as int) * (g as int),
                    0 <= y as int,
            ;
            lemma_fundamental_div_mod_converse(n as int, g as int, y as int, x as int);
            assert(in_cell(particles@[n as int], *bounds, g as int, n as int));
        }
        x = x + 1;
        n = n + 1;
    }
    proof {
        assert forall|n1: int, n2: int|
            0 <= n1 < n2 < body_count as int implies !crate::particle::disks_overlap(
            particles@[n1],
            particles@[n2],
        ) by {
            lemma_grid_no_overlap(
                particles@[n1],
                particles@[n2],
                *bounds,
                g as int,
                n1,
                n2,
            );
        }
    }
    particles
}

#[derive(Clone, Copy, PartialEq, Eq, Structural, Debug)]
pub enum DrawColor {
    Blue,
    Red,
}

/// One filled circle of a frame: centre and radius in fixed-point domain
/// units, plus the colour it is drawn in.
#[derive(Clone, Copy, PartialEq, Eq, Structural, Debug)]
pub struct DrawCircle {
    pub x: i64,
    pub y: i64,
    pub radius: i64,
    pub color: DrawColor,
}

/// The polymorphic controller contract shared by the three simulation
/// modes. Each variant names the exact mathematical model of its own tick
/// and draw output through the associated spec functions, so the trait
/// methods carry exact contracts while staying mode-independent.
pub trait Controller: Sized {
    /// The controller's internal invariant.
    spec fn wf(&self) -> bool;

    /// The particle collection, as the sequence it holds.
    spec fn particles_view(&self) -> Seq<crate::particle::Particle>;

    /// The exact particle sequence after one tick from this state.
    spec fn ticked_view(&self, dt: int, bounds: SimulationBounds) -> Seq<crate::particle::Particle>;

    /// What a tick leaves untouched besides the particles.
    spec fn tick_frame(&self, post: &Self) -> bool;

    /// The mode's stable name.
    spec fn spec_name(&self) -> Seq<char>;

    /// The exact draw data this state produces.
    spec fn draw_view(&self) -> Seq<DrawCircle>;

    /// Advances the state by exactly one fixed timestep; never re-reads
    /// external input, never mutates the bounds.
    fn tick(&mut self, dt: i64, bounds: &SimulationBounds)
        requires
            old(self).wf(),
            dt > 0,
            bounds_wf(*bounds),
        ensures
            final(self).wf(),
            final(self).particles_view() == old(self).ticked_view(dt as int, *bounds),
            old(self).tick_frame(final(self)),
    ;

    /// A human-readable, stable identifier of the mode, for display only.
    fn name(&self) -> (r: &'static str)
        ensures
            r@ == self.spec_name(),
    ;

    /// Per-frame draw data, one filled circle per particle plus any
    /// mode-specific markers, consumed by an external rendering
    /// collaborator.
    fn draw_data(&self) -> (r: Vec<DrawCircle>)
        requires
            self.wf(),
        ensures
            r@ == self.draw_view(),
    ;
}

} // verus!
