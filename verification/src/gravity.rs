//! N-body gravitational attraction: every unordered pair of particles
//! attracts with the Newtonian inverse-square force (unit gravitational
//! constant) and may also physically collide; after the pairwise force
//! pass all particles integrate in parallel.

use vstd::prelude::*;
use crate::controller::{Controller, DrawCircle, DrawColor, SimulationBounds, bounds_wf};
use crate::fixed::{SCALE, abs_int, cl, clamp_i64, fx_div, fx_mul, fxdiv, fxmul, sat_add, sat_sub};
use crate::particle::{
    Particle, all_integrated, all_valid, applied_force, collided, disks_overlap,
    get_two_particles, integrated, p_valid,
};
use crate::vec2::{Vec2, norm_sq_raw, v2_add, v2_dir, v2_div, v2_neg, v2_norm_sq, v2_scale, v2_sub, v2_zero};

verus! {

/// One pairwise interaction of the gravity mode: the Newtonian attraction
/// `(m1 * m2 / |d|^2) * normalize(d)` pulls the two particles toward each
/// other, and the penalty collision then acts on the same pair. A pair
/// whose fixed-point squared distance truncates to zero feels no
/// attraction (the quotient's fallback), and coincident centres skip the
/// collision, so the interaction is total.
pub open spec fn pair_gravity(p1: Particle, p2: Particle, dt: int) -> (Particle, Particle) {
    let d = v2_sub(p1.position, p2.position);
    let dn = v2_dir(d);
    let g = fx_div(fx_mul(p1.mass as int, p2.mass as int), v2_norm_sq(d));
    let gf = v2_scale(dn, g);
    collided(applied_force(p1, v2_neg(gf)), applied_force(p2, gf), dt)
}

/// The pair `(i, j)` of the collection replaced by its interaction result.
pub open spec fn apply_pair(s: Seq<Particle>, i: int, j: int, dt: int) -> Seq<Particle> {
    let pr = pair_gravity(s[i], s[j], dt);
    s.update(i, pr.0).update(j, pr.1)
}

/// The rest of the pairwise pass, starting at pair `(i, j)`: `j` runs from
/// `i + 1` up to the length, then `i` advances, exactly as the tick's
/// nested loops visit the pairs.
pub open spec fn pass_from(s: Seq<Particle>, i: int, j: int, dt: int) -> Seq<Particle>
    decreases s.len() - i, s.len() - j,
{
    if i < 0 || j <= i {
        s
    } else if i >= s.len() - 1 {
        s
    } else if j >= s.len() {
        pass_from(s, i + 1, i + 2, dt)
    } else {
        pass_from(apply_pair(s, i, j, dt), i, j + 1, dt)
    }
}

/// The whole pairwise force pass of the gravity mode.
pub open spec fn gravity_pass(s: Seq<Particle>, dt: int) -> Seq<Particle> {
    pass_from(s, 0, 1, dt)
}

/// One full gravity tick: the pairwise pass, then integration of every
/// particle; an empty collection is left untouched.
pub open spec fn gravity_ticked(s: Seq<Particle>, dt: int) -> Seq<Particle> {
    if s.len() == 0 {
        s
    } else {
        all_integrated(gravity_pass(s, dt), dt)
    }
}

/// A pairwise interaction only accumulates forces: mass, radius, position
/// and velocity of both particles are untouched.
pub proof fn lemma_pair_gravity_preserves(p1: Particle, p2: Particle, dt: int)
    ensures
        pair_gravity(p1, p2, dt).0.mass == p1.mass,
        pair_gravity(p1, p2, dt).0.radius == p1.radius,
        pair_gravity(p1, p2, dt).0.position == p1.position,
        pair_gravity(p1, p2, dt).0.velocity == p1.velocity,
        pair_gravity(p1, p2, dt).1.mass == p2.mass,
        pair_gravity(p1, p2, dt).1.radius == p2.radius,
        pair_gravity(p1, p2, dt).1.position == p2.position,
        pair_gravity(p1, p2, dt).1.velocity == p2.velocity,
{
}

/// The total momentum of the collection along the first axis: the sum of
/// `mass * velocity.x` over all particles, as an exact integer.
pub open spec fn momentum_x(s: Seq<Particle>) -> int
    decreases s.len(),
{
    if s.len() == 0 {
        0
    } else {
        momentum_x(s.drop_last()) + (s.last().mass as int) * (s.last().velocity.x as int)
    }
}

/// The total momentum of the collection along the second axis.
pub open spec fn momentum_y(s: Seq<Particle>) -> int
    decreases s.len(),
{
    if s.len() == 0 {
        0
    } else {
        momentum_y(s.drop_last()) + (s.last().mass as int) * (s.last().velocity.y as int)
    }
}

/// Small enough that three such forces accumulate without saturating.
pub open spec fn small_v(v: Vec2) -> bool {
    abs_int(v.x as int) <= (i64::MAX as int) / 4 && abs_int(v.y as int) <= (i64::MAX as int) / 4
}

/// The exact force one gravity interaction accumulates on the second
/// particle of a pair with empty accumulators and unsaturated
/// intermediates; the first particle receives its exact negation.
pub open spec fn pair_acc2(p1: Particle, p2: Particle, dt: int) -> (int, int) {
    let d = v2_sub(p1.position, p2.position);
    let dn = v2_dir(d);
    let g = fx_div(fx_mul(p1.mass as int, p2.mass as int), v2_norm_sq(d));
    let gf = v2_scale(dn, g);
    if !disks_overlap(p1, p2) || norm_sq_raw(d) == 0 {
        (gf.x as int, gf.y as int)
    } else {
        let k = fx_div(clamp_i64(p1.mass + p2.mass), dt);
        let ov = clamp_i64(clamp_i64(p1.radius + p2.radius) - crate::vec2::v2_norm(d));
        let push = v2_scale(dn, fx_mul(k, ov));
        let rel = v2_sub(p1.velocity, p2.velocity);
        let fd = v2_scale(dn, fx_mul(crate::constants::damping_fx(), crate::vec2::v2_dot(rel, dn)));
        (gf.x - push.x + fd.x, gf.y - push.y + fd.y)
    }
}

/// The velocity change one axis of a particle of mass `m` picks up from
/// an accumulated force `a` over one step.
pub open spec fn vel_delta(a: int, m: int, dt: int) -> int {
    fx_mul(fx_div(a, m), dt)
}

/// The machine limits under which one axis of the velocity update is
/// exact for both particles of the pair: the scaled quotient and product
/// stay representable, and so do both updated velocities.
pub open spec fn delta_tame(a: int, m: int, dt: int, vplus: int, vminus: int) -> bool {
    abs_int(crate::fixed::tdiv(a * (SCALE as int), m)) <= i64::MAX as int && abs_int(
        crate::fixed::tdiv(fx_div(a, m) * dt, SCALE as int),
    ) <= i64::MAX as int && abs_int(vplus + vel_delta(a, m, dt)) <= i64::MAX as int && abs_int(
        vminus - vel_delta(a, m, dt),
    ) <= i64::MAX as int
}

/// The machine limits under which one whole two-body gravity tick
/// saturates nowhere that the momentum argument touches.
pub open spec fn two_body_tame(p1: Particle, p2: Particle, dt: int) -> bool {
    let d = v2_sub(p1.position, p2.position);
    let dn = v2_dir(d);
    let g = fx_div(fx_mul(p1.mass as int, p2.mass as int), v2_norm_sq(d));
    let gf = v2_scale(dn, g);
    let k = fx_div(clamp_i64(p1.mass + p2.mass), dt);
    let ov = clamp_i64(clamp_i64(p1.radius + p2.radius) - crate::vec2::v2_norm(d));
    let push = v2_scale(dn, fx_mul(k, ov));
    let rel = v2_sub(p1.velocity, p2.velocity);
    let fd = v2_scale(dn, fx_mul(crate::constants::damping_fx(), crate::vec2::v2_dot(rel, dn)));
    small_v(gf) && small_v(push) && small_v(fd) && delta_tame(
        pair_acc2(p1, p2, dt).0,
        p1.mass as int,
        dt,
        p2.velocity.x as int,
        p1.velocity.x as int,
    ) && delta_tame(
        pair_acc2(p1, p2, dt).1,
        p1.mass as int,
        dt,
        p2.velocity.y as int,
        p1.velocity.y as int,
    )
}

/// The momentum of a two-element collection, written out.
proof fn lemma_momentum_two(s: Seq<Particle>)
    requires
        s.len() == 2,
    ensures
        momentum_x(s) == (s[0].mass as int) * (s[0].velocity.x as int) + (s[1].mass as int) * (
        s[1].velocity.x as int),
        momentum_y(s) == (s[0].mass as int) * (s[0].velocity.y as int) + (s[1].mass as int) * (
        s[1].velocity.y as int),
{
    let t = s.drop_last();
    assert(t.len() == 1);
    assert(s.last() == s[1]);
    assert(t.last() == s[0]);
    assert(t.drop_last().len() == 0);
    assert(momentum_x(t.drop_last()) == 0);
    assert(momentum_y(t.drop_last()) == 0);
    assert(momentum_x(t) == (s[0].mass as int) * (s[0].velocity.x as int));
    assert(momentum_y(t) == (s[0].mass as int) * (s[0].velocity.y as int));
    assert(momentum_x(s) == momentum_x(t) + (s[1].mass as int) * (s[1].velocity.x as int));
    assert(momentum_y(s) == momentum_y(t) + (s[1].mass as int) * (s[1].velocity.y as int));
}

/// One gravity interaction on a fresh pair accumulates exactly opposite
/// forces on the two particles.
proof fn lemma_pair_antisymmetric(p1: Particle, p2: Particle, dt: int)
    requires
        p1.force_accumulator == v2_zero(),
        p2.force_accumulator == v2_zero(),
        two_body_tame(p1, p2, dt),
    ensures
        pair_gravity(p1, p2, dt).1.force_accumulator.x as int == pair_acc2(p1, p2, dt).0,
        pair_gravity(p1, p2, dt).1.force_accumulator.y as int == pair_acc2(p1, p2, dt).1,
        pair_gravity(p1, p2, dt).0.force_accumulator.x as int == -pair_acc2(p1, p2, dt).0,
        pair_gravity(p1, p2, dt).0.force_accumulator.y as int == -pair_acc2(p1, p2, dt).1,
{
    let d = v2_sub(p1.position, p2.position);
    let dn = v2_dir(d);
    let g = fx_div(fx_mul(p1.mass as int, p2.mass as int), v2_norm_sq(d));
    let gf = v2_scale(dn, g);
    let p1a = applied_force(p1, v2_neg(gf));
    let p2a = applied_force(p2, gf);
    assert(p1a.force_accumulator.x as int == -(gf.x as int));
    assert(p1a.force_accumulator.y as int == -(gf.y as int));
    assert(p2a.force_accumulator == gf);
    assert(v2_sub(p1a.position, p2a.position) == d);
    assert(disks_overlap(p1a, p2a) == disks_overlap(p1, p2));
    if !disks_overlap(p1, p2) || norm_sq_raw(d) == 0 {
        assert(pair_gravity(p1, p2, dt).1.force_accumulator == gf);
    } else {
        let k = fx_div(clamp_i64(p1.mass + p2.mass), dt);
        let ov = clamp_i64(clamp_i64(p1.radius + p2.radius) - crate::vec2::v2_norm(d));
        let push = v2_scale(dn, fx_mul(k, ov));
        let rel = v2_sub(p1.velocity, p2.velocity);
        let fd = v2_scale(
            dn,
            fx_mul(crate::constants::damping_fx(), crate::vec2::v2_dot(rel, dn)),
        );
        assert(v2_sub(p1a.velocity, p2a.velocity) == rel);
        let q2 = pair_gravity(p1, p2, dt).1;
        assert(q2 == applied_force(applied_force(p2a, v2_neg(push)), fd));
        assert(q2.force_accumulator.x as int == gf.x - push.x + fd.x);
        assert(q2.force_accumulator.y as int == gf.y - push.y + fd.y);
        let q1 = pair_gravity(p1, p2, dt).0;
        assert(q1 == applied_force(applied_force(p1a, push), v2_neg(fd)));
        assert(q1.force_accumulator.x as int == -(gf.x as int) + push.x - fd.x);
        assert(q1.force_accumulator.y as int == -(gf.y as int) + push.y - fd.y);
    }
}

/// Truncating fixed-point division and multiplication are odd in their
/// first argument, away from saturation.
proof fn lemma_vel_delta_odd(a: int, m: int, dt: int)
    requires
        abs_int(crate::fixed::tdiv(a * (SCALE as int), m)) <= i64::MAX as int,
        abs_int(crate::fixed::tdiv(fx_div(a, m) * dt, SCALE as int)) <= i64::MAX as int,
    ensures
        vel_delta(-a, m, dt) == -vel_delta(a, m, dt),
{
    assert((-a) * (SCALE as int) == -(a * (SCALE as int))) by (nonlinear_arith);
    crate::fixed::lemma_tdiv_odd(a * (SCALE as int), m);
    crate::fixed::lemma_clamp_neg(crate::fixed::tdiv(a * (SCALE as int), m));
    assert(fx_div(-a, m) == -fx_div(a, m));
    let u = fx_div(a, m);
    assert((-u) * dt == -(u * dt)) by (nonlinear_arith);
    crate::fixed::lemma_tdiv_odd(u * dt, SCALE as int);
    crate::fixed::lemma_clamp_neg(crate::fixed::tdiv(u * dt, SCALE as int));
    assert(fx_mul(-u, dt) == -fx_mul(u, dt));
}

/// On a two-element collection, the pairwise pass is the one interaction.
proof fn lemma_two_body_pass(s: Seq<Particle>, dt: int)
    requires
        s.len() == 2,
    ensures
        gravity_pass(s, dt) == apply_pair(s, 0, 1, dt),
{
    let q = apply_pair(s, 0, 1, dt);
    assert(q.len() == 2);
    assert(pass_from(s, 0, 1, dt) == pass_from(q, 0, 2, dt));
    assert(pass_from(q, 0, 2, dt) == pass_from(q, 1, 2, dt));
    assert(pass_from(q, 1, 2, dt) == q);
}

/// One gravity tick keeps a two-body system two-body: masses, radii and
/// the particle invariant carry over, and the force accumulators come out
/// empty again, so the momentum argument applies to every later tick too.
proof fn lemma_two_body_tick_shape(s: Seq<Particle>, dt: int)
    requires
        s.len() == 2,
    ensures
        gravity_ticked(s, dt).len() == 2,
        gravity_ticked(s, dt)[0].mass == s[0].mass,
        gravity_ticked(s, dt)[1].mass == s[1].mass,
        gravity_ticked(s, dt)[0].radius == s[0].radius,
        gravity_ticked(s, dt)[1].radius == s[1].radius,
        gravity_ticked(s, dt)[0].force_accumulator == v2_zero(),
        gravity_ticked(s, dt)[1].force_accumulator == v2_zero(),
{
    lemma_two_body_pass(s, dt);
    let q = apply_pair(s, 0, 1, dt);
    lemma_pair_gravity_preserves(s[0], s[1], dt);
    let r = gravity_ticked(s, dt);
    assert(r == all_integrated(q, dt));
    assert(r[0] == integrated(q[0], dt));
    assert(r[1] == integrated(q[1], dt));
}

/// Two equal-mass particles with empty force accumulators, advanced by
/// one gravity tick, keep the exact sum of their velocities, and so their
/// exact total momentum: the attraction and collision act with equal and
/// opposite forces, and with equal masses the two velocity updates cancel
/// in the sum. The preconditions only rule out saturation of the machine
/// representation.
pub proof fn lemma_two_body_momentum(s: Seq<Particle>, dt: int)
    requires
        s.len() == 2,
        s[0].mass == s[1].mass,
        p_valid(s[0]),
        p_valid(s[1]),
        s[0].force_accumulator == v2_zero(),
        s[1].force_accumulator == v2_zero(),
        dt > 0,
        two_body_tame(s[0], s[1], dt),
    ensures
        gravity_ticked(s, dt).len() == 2,
        gravity_ticked(s, dt)[0].velocity.x as int + gravity_ticked(s, dt)[1].velocity.x as int
            == s[0].velocity.x as int + s[1].velocity.x as int,
        gravity_ticked(s, dt)[0].velocity.y as int + gravity_ticked(s, dt)[1].velocity.y as int
            == s[0].velocity.y as int + s[1].velocity.y as int,
        momentum_x(gravity_ticked(s, dt)) == momentum_x(s),
        momentum_y(gravity_ticked(s, dt)) == momentum_y(s),
{
    lemma_two_body_pass(s, dt);
    let q = apply_pair(s, 0, 1, dt);
    assert(q.len() == 2);
    let pr = pair_gravity(s[0], s[1], dt);
    assert(q[0] == pr.0);
    assert(q[1] == pr.1);
    lemma_pair_antisymmetric(s[0], s[1], dt);
    lemma_pair_gravity_preserves(s[0], s[1], dt);
    let m = s[0].mass as int;
    let ax = pair_acc2(s[0], s[1], dt).0;
    let ay = pair_acc2(s[0], s[1], dt).1;
    lemma_vel_delta_odd(ax, m, dt);
    lemma_vel_delta_odd(ay, m, dt);
    let r = gravity_ticked(s, dt);
    assert(r == all_integrated(q, dt));
    assert(r[0] == integrated(q[0], dt));
    assert(r[1] == integrated(q[1], dt));
    assert(fx_div(q[1].force_accumulator.x as int, m) == fx_div(ax, m));
    assert(r[1].velocity.x as int == clamp_i64(s[1].velocity.x + vel_delta(ax, m, dt)));
    assert(r[0].velocity.x as int == clamp_i64(s[0].velocity.x + vel_delta(-ax, m, dt)));
    assert(r[1].velocity.x as int == s[1].velocity.x + vel_delta(ax, m, dt));
    assert(r[0].velocity.x as int == s[0].velocity.x - vel_delta(ax, m, dt));
    assert(r[1].velocity.y as int == s[1].velocity.y + vel_delta(ay, m, dt));
    assert(r[0].velocity.y as int == s[0].velocity.y - vel_delta(ay, m, dt));
    lemma_momentum_two(s);
    lemma_momentum_two(r);
    assert(r[0].mass == m && r[1].mass == m);
    assert(m * (r[0].velocity.x as int) + m * (r[1].velocity.x as int) == m * (s[0].velocity.x
        as int) + m * (s[1].velocity.x as int)) by (nonlinear_arith)
        requires
            r[0].velocity.x as int + r[1].velocity.x as int == s[0].velocity.x as int
                + s[1].velocity.x as int,
    ;
    assert(m * (r[0].velocity.y as int) + m * (r[1].velocity.y as int) == m * (s[0].velocity.y
        as int) + m * (s[1].velocity.y as int)) by (nonlinear_arith)
        requires
            r[0].velocity.y as int + r[1].velocity.y as int == s[0].velocity.y as int
                + s[1].velocity.y as int,
    ;
}

/// The collection after `n` gravity ticks of the same fixed timestep.
pub open spec fn gravity_ticked_n(s: Seq<Particle>, dt: int, n: int) -> Seq<Particle>
    decreases n,
{
    if n <= 0 {
        s
    } else {
        gravity_ticked(gravity_ticked_n(s, dt, n - 1), dt)
    }
}

/// The machine limits hold at every step of the `n`-tick trajectory.
pub open spec fn trajectory_tame(s: Seq<Particle>, dt: int, n: int) -> bool
    decreases n,
{
    n <= 0 || {
        let t = gravity_ticked_n(s, dt, n - 1);
        trajectory_tame(s, dt, n - 1) && two_body_tame(t[0], t[1], dt)
    }
}

/// Two equal-mass particles, interacting only through gravitational
/// attraction and their mutual collision, conserve their exact total
/// momentum over any number of ticks: each tick leaves the accumulators
/// empty and the masses unchanged, so the single-tick conservation
/// applies step by step.
pub proof fn lemma_two_body_momentum_n_ticks(s: Seq<Particle>, dt: int, n: int)
    requires
        s.len() == 2,
        s[0].mass == s[1].mass,
        p_valid(s[0]),
        p_valid(s[1]),
        s[0].force_accumulator == v2_zero(),
        s[1].force_accumulator == v2_zero(),
        dt > 0,
        n >= 0,
        trajectory_tame(s, dt, n),
    ensures
        gravity_ticked_n(s, dt, n).len() == 2,
        gravity_ticked_n(s, dt, n)[0].mass == s[0].mass,
        gravity_ticked_n(s, dt, n)[1].mass == s[1].mass,
        gravity_ticked_n(s, dt, n)[0].force_accumulator == v2_zero(),
        gravity_ticked_n(s, dt, n)[1].force_accumulator == v2_zero(),
        p_valid(gravity_ticked_n(s, dt, n)[0]),
        p_valid(gravity_ticked_n(s, dt, n)[1]),
        momentum_x(gravity_ticked_n(s, dt, n)) == momentum_x(s),
        momentum_y(gravity_ticked_n(s, dt, n)) == momentum_y(s),
    decreases n,
{
    if n > 0 {
        lemma_two_body_momentum_n_ticks(s, dt, n - 1);
        let t = gravity_ticked_n(s, dt, n - 1);
        lemma_two_body_momentum(t, dt);
        lemma_two_body_tick_shape(t, dt);
    }
}

/// The marker drawn at the centre of mass is three pixels wide.
pub const MARKER_RADIUS: i64 = 3000;

/// The rate a key press rescales the view by, 1.05 in fixed point.
pub const SCALE_RATE: i64 = 1050;

/// A discrete view-control event: affects only presentation scale, never
/// physical state.
#[derive(Clone, Copy, PartialEq, Eq, Structural, Debug)]
pub enum ViewKey {
    ZoomIn,
    ZoomOut,
    Reset,
}

pub struct GravityController {
    pub particles: Vec<Particle>,
    pub scale: i64,
    pub bounds: SimulationBounds,
}

/// The view transform: recentres by half the scaled overshoot of the
/// domain, then divides by the view scale.
pub open spec fn transformed_x(c: GravityController, x: int) -> int {
    fx_div(clamp_i64(x + fx_mul(c.bounds.0 as int, fx_div(clamp_i64(c.scale - SCALE), 2 * (
    SCALE as int)))), c.scale as int)
}

pub open spec fn transformed_y(c: GravityController, y: int) -> int {
    fx_div(clamp_i64(y + fx_mul(c.bounds.1 as int, fx_div(clamp_i64(c.scale - SCALE), 2 * (
    SCALE as int)))), c.scale as int)
}

/// The mass-weighted position sum of the first `n` particles.
pub open spec fn mass_weighted_sum(s: Seq<Particle>, n: int) -> Vec2
    decreases n,
{
    if n <= 0 {
        v2_zero()
    } else {
        v2_add(mass_weighted_sum(s, n - 1), v2_scale(s[n - 1].position, s[n - 1].mass as int))
    }
}

/// The saturating mass total of the first `n` particles.
pub open spec fn mass_total(s: Seq<Particle>, n: int) -> i64
    decreases n,
{
    if n <= 0 {
        0
    } else {
        cl(mass_total(s, n - 1) + s[n - 1].mass)
    }
}

/// The instantaneous centre of mass of the collection.
pub open spec fn center_of_mass(s: Seq<Particle>) -> Vec2 {
    v2_div(mass_weighted_sum(s, s.len() as int), mass_total(s, s.len() as int) as int)
}

/// The gravity mode's draw data: one blue circle per particle, in view
/// coordinates with the radius shrunk by the view scale, then a small red
/// marker at the centre of mass.
pub open spec fn gravity_draw(c: GravityController) -> Seq<DrawCircle> {
    c.particles@.map_values(
        |p: Particle|
            DrawCircle {
                x: cl(transformed_x(c, p.position.x as int)),
                y: cl(transformed_y(c, p.position.y as int)),
                radius: cl(fx_div(p.radius as int, c.scale as int)),
                color: DrawColor::Blue,
            },
    ).push(
        DrawCircle {
            x: cl(transformed_x(c, center_of_mass(c.particles@).x as int)),
            y: cl(transformed_y(c, center_of_mass(c.particles@).y as int)),
            radius: MARKER_RADIUS,
            color: DrawColor::Red,
        },
    )
}

impl GravityController {
    /// Applies the attraction and collision of pair `(index1, index2)` to
    /// the collection.
    fn calculate_forces(&mut self, index1: usize, index2: usize, dt: i64)
        requires
            index1 < index2,
            index2 < old(self).particles@.len(),
            dt > 0,
        ensures
            final(self).particles@ == apply_pair(
                old(self).particles@,
                index1 as int,
                index2 as int,
                dt as int,
            ),
            final(self).scale == old(self).scale,
            final(self).bounds == old(self).bounds,
    {
        let (mut p1, mut p2) = get_two_particles(&self.particles, index1, index2);
        let d = p1.position.minus(&p2.position);
        let dn = d.normalize();
        let g = fxdiv(fxmul(p1.mass, p2.mass), d.norm_squared());
        let gf = dn.scaled(g);
        p2.apply_force(&gf);
        let gneg = gf.negated();
        p1.apply_force(&gneg);
        Particle::handle_collision(&mut p1, &mut p2, dt);
        self.particles[index1] = p1;
        self.particles[index2] = p2;
    }

    /// Consumes the validated body count from the external input
    /// collaborator, places the bodies on the jittered grid, records the
    /// bounds, and resets the view scale.
    pub fn configure(&mut self, bounds: &SimulationBounds, body_count: usize)
        requires
            bounds_wf(*bounds),
            body_count as int <= crate::controller::max_body_count_spec(*bounds),
        ensures
            final(self).wf(),
            final(self).particles@.len() == body_count as int,
            final(self).scale == SCALE,
            final(self).bounds == *bounds,
            forall|n: int|
                0 <= n < body_count as int ==> {
                    let p = #[trigger] final(self).particles@[n];
                    p.mass == crate::controller::BODY_MASS && p.radius
                        == crate::controller::BODY_RADIUS && p.velocity == crate::vec2::v2_zero()
                        && p.force_accumulator == crate::vec2::v2_zero()
                        && crate::controller::in_cell(
                        p,
                        *bounds,
                        crate::controller::ceil_sqrt(body_count as int),
                        n,
                    )
                },
            forall|n1: int, n2: int|
                0 <= n1 < n2 < body_count as int ==> !crate::particle::disks_overlap(
                    final(self).particles@[n1],
                    final(self).particles@[n2],
                ),
    {
        self.particles = crate::controller::default_fetch_parameters(bounds, body_count);
        self.scale = SCALE;
        self.bounds = *bounds;
    }

    /// The view transform of a point, as a pair of view coordinates.
    pub fn transform_position(&self, x: i64, y: i64) -> (r: (i64, i64))
        ensures
            r.0 as int == transformed_x(*self, x as int),
            r.1 as int == transformed_y(*self, y as int),
    {
        let half: i64 = fxdiv(sat_sub(self.scale, SCALE), 2 * SCALE);
        let tx = sat_add(x, fxmul(self.bounds.0, half));
        let ty = sat_add(y, fxmul(self.bounds.1, half));
        (fxdiv(tx, self.scale), fxdiv(ty, self.scale))
    }

    /// Discrete view-scale control; physical state is untouched.
    pub fn handle_key_down(&mut self, key: ViewKey)
        ensures
            final(self).particles == old(self).particles,
            final(self).bounds == old(self).bounds,
            key == ViewKey::ZoomIn ==> final(self).scale as int == fx_div(
                old(self).scale as int,
                SCALE_RATE as int,
            ),
            key == ViewKey::ZoomOut ==> final(self).scale as int == fx_mul(
                old(self).scale as int,
                SCALE_RATE as int,
            ),
            key == ViewKey::Reset ==> final(self).scale == SCALE,
    {
        match key {
            ViewKey::ZoomIn => {
                self.scale = fxdiv(self.scale, SCALE_RATE);
            },
            ViewKey::ZoomOut => {
                self.scale = fxmul(self.scale, SCALE_RATE);
            },
            ViewKey::Reset => {
                self.scale = SCALE;
            },
        }
    }
}

impl Default for GravityController {
    /// The empty, unconfigured state.
    fn default() -> (r: Self)
        ensures
            r.particles@.len() == 0,
            r.scale == SCALE,
            r.bounds == SimulationBounds(0, 0),
            r.wf(),
    {
        GravityController { particles: Vec::new(), scale: SCALE, bounds: SimulationBounds(0, 0) }
    }
}

impl Controller for GravityController {
    open spec fn wf(&self) -> bool {
        all_valid(self.particles@)
    }

    open spec fn particles_view(&self) -> Seq<Particle> {
        self.particles@
    }

    open spec fn ticked_view(&self, dt: int, bounds: SimulationBounds) -> Seq<Particle> {
        gravity_ticked(self.particles@, dt)
    }

    open spec fn tick_frame(&self, post: &Self) -> bool {
        post.scale == self.scale && post.bounds == self.bounds
    }

    open spec fn spec_name(&self) -> Seq<char> {
        "Gravity"@
    }

    open spec fn draw_view(&self) -> Seq<DrawCircle> {
        gravity_draw(*self)
    }

    fn tick(&mut self, dt: i64, bounds: &SimulationBounds) {
        if self.particles.len() == 0 {
            return ;
        }
        let ghost orig = self.particles@;
        let len = self.particles.len();
        let mut i: usize = 0;
        while i + 1 < len
            invariant
                0 < len == self.particles@.len(),
                i < len,
                dt > 0,
                all_valid(self.particles@),
                pass_from(self.particles@, i as int, i + 1, dt as int) == pass_from(
                    orig,
                    0,
                    1,
                    dt as int,
                ),
                self.scale == old(self).scale,
                self.bounds == old(self).bounds,
            decreases len - i,
        {
            let mut j: usize = i + 1;
            while j < len
                invariant
                    0 < len == self.particles@.len(),
                    i + 1 < len,
                    i + 1 <= j <= len,
                    dt > 0,
                    all_valid(self.particles@),
                    pass_from(self.particles@, i as int, j as int, dt as int) == pass_from(
                        orig,
                        0,
                        1,
                        dt as int,
                    ),
                    self.scale == old(self).scale,
                    self.bounds == old(self).bounds,
                decreases len - j,
            {
                let ghost before = self.particles@;
                self.calculate_forces(i, j, dt);
                proof {
                    lemma_pair_gravity_preserves(before[i as int], before[j as int], dt as int);
                    assert(all_valid(self.particles@));
                    assert(pass_from(before, i as int, j as int, dt as int) == pass_from(
                        self.particles@,
                        i as int,
                        j + 1,
                        dt as int,
                    ));
                }
                j += 1;
            }
            i += 1;
        }
        proof {
            assert(pass_from(self.particles@, i as int, i + 1, dt as int) == self.particles@);
            assert(self.particles@ == gravity_pass(orig, dt as int));
        }
        Particle::update_vec(&mut self.particles, dt);
    }

    fn name(&self) -> (r: &'static str) {
        "Gravity"
    }

    fn draw_data(&self) -> (r: Vec<DrawCircle>) {
        let mut out: Vec<DrawCircle> = Vec::new();
        let mut msum = Vec2::zero();
        let mut mtotal: i64 = 0;
        let mut i: usize = 0;
        while i < self.particles.len()
            invariant
                i <= self.particles@.len(),
                msum == mass_weighted_sum(self.particles@, i as int),
                mtotal as int == mass_total(self.particles@, i as int),
                out@ == self.particles@.take(i as int).map_values(
                    |p: Particle|
                        DrawCircle {
                            x: cl(transformed_x(*self, p.position.x as int)),
                            y: cl(transformed_y(*self, p.position.y as int)),
                            radius: cl(fx_div(p.radius as int, self.scale as int)),
                            color: DrawColor::Blue,
                        },
                ),
            decreases self.particles@.len() - i,
        {
            let p = self.particles[i];
            let tp = self.transform_position(p.position.x, p.position.y);
            out.push(
                DrawCircle {
                    x: tp.0,
                    y: tp.1,
                    radius: fxdiv(p.radius, self.scale),
                    color: DrawColor::Blue,
                },
            );
            msum = msum.plus(&p.position.scaled(p.mass));
            mtotal = sat_add(mtotal, p.mass);
            i += 1;
            proof {
                assert(self.particles@.take(i as int).drop_last() == self.particles@.take(
                    i as int - 1,
                ));
                assert(out@ =~= self.particles@.take(i as int).map_values(
                    |p: Particle|
                        DrawCircle {
                            x: cl(transformed_x(*self, p.position.x as int)),
                            y: cl(transformed_y(*self, p.position.y as int)),
                            radius: cl(fx_div(p.radius as int, self.scale as int)),
                            color: DrawColor::Blue,
                        },
                ));
            }
        }
        let com = msum.divided(mtotal);
        let tc = self.transform_position(com.x, com.y);
        out.push(DrawCircle { x: tc.0, y: tc.1, radius: MARKER_RADIUS, color: DrawColor::Red });
        proof {
            assert(self.particles@.take(self.particles@.len() as int) == self.particles@);
            assert(out@ =~= gravity_draw(*self));
        }
        out
    }
}

} // verus!
