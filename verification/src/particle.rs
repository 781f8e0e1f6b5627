//! The particle: physical state plus the single-body semi-implicit Euler
//! integration step, the pairwise penalty collision, and the wall penalty
//! collisions against the domain boundary.

use vstd::prelude::*;
use rayon::iter::{IntoParallelRefMutIterator, ParallelIterator};
use crate::constants::{damping_coefficient, damping_fx};
use crate::controller::SimulationBounds;
use crate::fixed::{cl, clamp_i64, fx_div, fx_mul, fxdiv, fxmul, sat_add, sat_sub};
use crate::vec2::{
    Vec2, norm_sq_raw, v2_add, v2_dir, v2_div, v2_dot, v2_neg, v2_norm, v2_norm_sq, v2_scale,
    v2_sub, v2_zero,
};

verus! {

#[derive(Clone, Copy, PartialEq, Eq, Structural, Debug)]
pub struct Particle {
    pub mass: i64,
    pub radius: i64,
    pub position: Vec2,
    pub velocity: Vec2,
    pub force_accumulator: Vec2,
}

/// The construction-time invariant: strictly positive mass, so that the
/// integration step never divides by a non-positive mass, and a
/// non-negative radius.
pub open spec fn p_valid(p: Particle) -> bool {
    p.mass > 0 && p.radius >= 0
}

/// `p` with `f` added to its force accumulator; nothing else changes.
pub open spec fn applied_force(p: Particle, f: Vec2) -> Particle {
    Particle {
        mass: p.mass,
        radius: p.radius,
        position: p.position,
        velocity: p.velocity,
        force_accumulator: v2_add(p.force_accumulator, f),
    }
}

/// `p` with the force `a * mass` added to its accumulator.
pub open spec fn applied_acceleration(p: Particle, a: Vec2) -> Particle {
    applied_force(p, v2_scale(a, p.mass as int))
}

/// One semi-implicit Euler step: velocity picks up `(force / mass) * dt`,
/// position then moves by the new velocity times `dt`, and the force
/// accumulator is reset to zero.
pub open spec fn integrated(p: Particle, dt: int) -> Particle {
    let vel = v2_add(p.velocity, v2_scale(v2_div(p.force_accumulator, p.mass as int), dt));
    let pos = v2_add(p.position, v2_scale(vel, dt));
    Particle {
        mass: p.mass,
        radius: p.radius,
        position: pos,
        velocity: vel,
        force_accumulator: v2_zero(),
    }
}

/// Every particle of the collection after one integration step.
pub open spec fn all_integrated(s: Seq<Particle>, dt: int) -> Seq<Particle> {
    s.map_values(|p: Particle| integrated(p, dt))
}

/// Every particle of the collection satisfies the particle invariant.
pub open spec fn all_valid(s: Seq<Particle>) -> bool {
    forall|i: int| 0 <= i < s.len() ==> p_valid(#[trigger] s[i])
}

/// Strict disk overlap: the squared radius sum exceeds the squared centre
/// distance. Disks that exactly touch do not overlap.
pub open spec fn disks_overlap(p1: Particle, p2: Particle) -> bool {
    let d = v2_sub(p1.position, p2.position);
    let rsum = clamp_i64(p1.radius + p2.radius);
    fx_mul(rsum, rsum) > v2_norm_sq(d)
}

/// The pairwise penalty collision: a push-apart force of
/// magnitude `(m1 + m2) / dt * overlap` along the contact normal, plus a
/// damping force along the normal proportional to the normal-projected
/// relative velocity. Non-overlapping pairs, and pairs with coincident
/// centres (where no normal exists), are returned unchanged.
pub open spec fn collided(p1: Particle, p2: Particle, dt: int) -> (Particle, Particle) {
    let d = v2_sub(p1.position, p2.position);
    if !disks_overlap(p1, p2) || norm_sq_raw(d) == 0 {
        (p1, p2)
    } else {
        let dn = v2_dir(d);
        let k = fx_div(clamp_i64(p1.mass + p2.mass), dt);
        let ov = clamp_i64(clamp_i64(p1.radius + p2.radius) - v2_norm(d));
        let push = v2_scale(dn, fx_mul(k, ov));
        let rel = v2_sub(p1.velocity, p2.velocity);
        let fd = v2_scale(dn, fx_mul(damping_fx(), v2_dot(rel, dn)));
        (
            applied_force(applied_force(p1, push), v2_neg(fd)),
            applied_force(applied_force(p2, v2_neg(push)), fd),
        )
    }
}

/// The wall penalty coefficient `mass / dt^2`, computed as two successive
/// fixed-point divisions to keep precision.
pub open spec fn wall_coeff(p: Particle, dt: int) -> int {
    fx_div(fx_div(p.mass as int, dt), dt)
}

/// Floor contact: a restoring force along the upward normal proportional
/// to the penetration depth, plus a damping force opposing the velocity.
pub open spec fn floor_collided(p: Particle, dt: int, b: SimulationBounds) -> Particle {
    if clamp_i64(p.position.y + p.radius) > b.1 {
        let depth = clamp_i64(clamp_i64(p.position.y + p.radius) - b.1);
        let f = fx_mul(wall_coeff(p, dt), depth);
        applied_force(
            applied_force(p, Vec2 { x: 0, y: cl(0 - f) }),
            v2_scale(p.velocity, clamp_i64(0 - damping_fx())),
        )
    } else {
        p
    }
}

/// Ceiling contact, with the downward normal.
pub open spec fn ceiling_collided(p: Particle, dt: int, b: SimulationBounds) -> Particle {
    if clamp_i64(p.position.y - p.radius) < 0 {
        let depth = clamp_i64(p.radius - p.position.y);
        let f = fx_mul(wall_coeff(p, dt), depth);
        applied_force(
            applied_force(p, Vec2 { x: 0, y: cl(f as int) }),
            v2_scale(p.velocity, clamp_i64(0 - damping_fx())),
        )
    } else {
        p
    }
}

/// Right-side contact, with the leftward normal.
pub open spec fn right_collided(p: Particle, dt: int, b: SimulationBounds) -> Particle {
    if clamp_i64(p.position.x + p.radius) > b.0 {
        let depth = clamp_i64(clamp_i64(p.position.x + p.radius) - b.0);
        let f = fx_mul(wall_coeff(p, dt), depth);
        applied_force(
            applied_force(p, Vec2 { x: cl(0 - f), y: 0 }),
            v2_scale(p.velocity, clamp_i64(0 - damping_fx())),
        )
    } else {
        p
    }
}

/// Left-side contact, with the rightward normal.
pub open spec fn left_collided(p: Particle, dt: int, b: SimulationBounds) -> Particle {
    if clamp_i64(p.position.x - p.radius) < 0 {
        let depth = clamp_i64(p.radius - p.position.x);
        let f = fx_mul(wall_coeff(p, dt), depth);
        applied_force(
            applied_force(p, Vec2 { x: cl(f as int), y: 0 }),
            v2_scale(p.velocity, clamp_i64(0 - damping_fx())),
        )
    } else {
        p
    }
}

/// All four wall contacts, checked floor, ceiling, right, left, each
/// against the particle's unchanged position and velocity.
pub open spec fn wall_collided(p: Particle, dt: int, b: SimulationBounds) -> Particle {
    left_collided(
        right_collided(ceiling_collided(floor_collided(p, dt, b), dt, b), dt, b),
        dt,
        b,
    )
}

impl Particle {
    pub fn new(mass: i64, radius: i64, position: Vec2) -> (r: Particle)
        requires
            mass > 0,
            radius >= 0,
        ensures
            r == (Particle {
                mass,
                radius,
                position,
                velocity: v2_zero(),
                force_accumulator: v2_zero(),
            }),
            p_valid(r),
    {
        Particle { mass, radius, position, velocity: Vec2::zero(), force_accumulator: Vec2::zero() }
    }

    pub fn apply_force(&mut self, force: &Vec2)
        ensures
            *final(self) == applied_force(*old(self), *force),
    {
        self.force_accumulator = self.force_accumulator.plus(force);
    }

    pub fn apply_acceleration(&mut self, acceleration: &Vec2)
        ensures
            *final(self) == applied_acceleration(*old(self), *acceleration),
    {
        let f = acceleration.scaled(self.mass);
        self.apply_force(&f);
    }

    /// One integration step of length `dt`.
    pub fn tick(&mut self, dt: i64)
        requires
            p_valid(*old(self)),
            dt > 0,
        ensures
            *final(self) == integrated(*old(self), dt as int),
    {
        let acc = self.force_accumulator.divided(self.mass);
        let vel = self.velocity.plus(&acc.scaled(dt));
        let pos = self.position.plus(&vel.scaled(dt));
        self.velocity = vel;
        self.position = pos;
        self.force_accumulator = Vec2::zero();
    }

    /// One integration step for every particle of the collection,
    /// distributed over worker threads. Safe to parallelize because each
    /// step reads and writes only its own particle's fields.
    ///
    /// Relies on rayon's `par_iter_mut().for_each`: the closure runs
    /// exactly once on each element, in place, and the element order of
    /// the vector is unchanged; the closure calls only the verified
    /// `Particle::tick`.
    #[verifier::external_body]
    pub fn update_vec(particles: &mut Vec<Particle>, dt: i64)
        requires
            dt > 0,
            forall|i: int|
                0 <= i < old(particles)@.len() ==> p_valid(#[trigger] old(particles)@[i]),
        ensures
            final(particles)@ == all_integrated(old(particles)@, dt as int),
    {
        particles.par_iter_mut().for_each(|p| p.tick(dt));
    }

    /// Penalty collision between two overlapping particles: push-apart
    /// along the contact normal, damping along the normal only.
    pub fn handle_collision(p1: &mut Particle, p2: &mut Particle, dt: i64)
        requires
            dt > 0,
        ensures
            (*final(p1), *final(p2)) == collided(*old(p1), *old(p2), dt as int),
            !disks_overlap(*old(p1), *old(p2)) ==> *final(p1) == *old(p1) && *final(p2) == *old(
                p2,
            ),
    {
        let d = p1.position.minus(&p2.position);
        let rsum = sat_add(p1.radius, p2.radius);
        let nsq = d.norm_squared();
        if fxmul(rsum, rsum) > nsq {
            if !(d.x == 0 && d.y == 0) {
                proof {
                    crate::vec2::lemma_norm_sq_raw_zero(d);
                }
                let dn = d.normalize();
                let k = fxdiv(sat_add(p1.mass, p2.mass), dt);
                let ov = sat_sub(rsum, d.norm());
                let push = dn.scaled(fxmul(k, ov));
                let rel = p1.velocity.minus(&p2.velocity);
                p1.apply_force(&push);
                p2.apply_force(&push.negated());
                let damp = damping_coefficient();
                let fd = dn.scaled(fxmul(damp, rel.dot(&dn)));
                p1.apply_force(&fd.negated());
                p2.apply_force(&fd);
            } else {
                proof {
                    crate::vec2::lemma_norm_sq_raw_zero(d);
                }
            }
        }
    }

    /// Penalty collisions against the four domain boundaries.
    pub fn wall_collisions(&mut self, dt: i64, bounds: &SimulationBounds)
        requires
            dt > 0,
        ensures
            *final(self) == wall_collided(*old(self), dt as int, *bounds),
    {
        let damp = damping_coefficient();
        let neg_damp = sat_sub(0, damp);
        let coeff = fxdiv(fxdiv(self.mass, dt), dt);
        // Floor collision
        if sat_add(self.position.y, self.radius) > bounds.1 {
            let depth = sat_sub(sat_add(self.position.y, self.radius), bounds.1);
            let f = fxmul(coeff, depth);
            let fd = self.velocity.scaled(neg_damp);
            self.apply_force(&Vec2 { x: 0, y: sat_sub(0, f) });
            self.apply_force(&fd);
        }
        assert(*self == floor_collided(*old(self), dt as int, *bounds));
        let ghost p1 = *self;
        // Ceiling collision
        if sat_sub(self.position.y, self.radius) < 0 {
            let depth = sat_sub(self.radius, self.position.y);
            let f = fxmul(coeff, depth);
            let fd = self.velocity.scaled(neg_damp);
            self.apply_force(&Vec2 { x: 0, y: f });
            self.apply_force(&fd);
        }
        assert(*self == ceiling_collided(p1, dt as int, *bounds));
        let ghost p2 = *self;
        // Right side collision
        if sat_add(self.position.x, self.radius) > bounds.0 {
            let depth = sat_sub(sat_add(self.position.x, self.radius), bounds.0);
            let f = fxmul(coeff, depth);
            let fd = self.velocity.scaled(neg_damp);
            self.apply_force(&Vec2 { x: sat_sub(0, f), y: 0 });
            self.apply_force(&fd);
        }
        assert(*self == right_collided(p2, dt as int, *bounds));
        let ghost p3 = *self;
        // Left side collision
        if sat_sub(self.position.x, self.radius) < 0 {
            let depth = sat_sub(self.radius, self.position.x);
            let f = fxmul(coeff, depth);
            let fd = self.velocity.scaled(neg_damp);
            self.apply_force(&Vec2 { x: f, y: 0 });
            self.apply_force(&fd);
        }
        assert(*self == left_collided(p3, dt as int, *bounds));
    }
}

/// With an empty force accumulator, one integration step leaves the
/// velocity unchanged and moves the position by exactly `velocity * dt`
/// on each axis; the only inputs left out are those whose exact move
/// would leave the representable coordinate range.
pub proof fn lemma_integrate_zero_force(p: Particle, dt: int)
    requires
        p_valid(p),
        dt > 0,
        p.force_accumulator == v2_zero(),
        crate::fixed::abs_int(p.position.x + fx_mul(p.velocity.x as int, dt)) <= i64::MAX as int,
        crate::fixed::abs_int(p.position.y + fx_mul(p.velocity.y as int, dt)) <= i64::MAX as int,
    ensures
        integrated(p, dt).velocity == p.velocity,
        integrated(p, dt).position.x as int == p.position.x + fx_mul(p.velocity.x as int, dt),
        integrated(p, dt).position.y as int == p.position.y + fx_mul(p.velocity.y as int, dt),
        integrated(p, dt).mass == p.mass,
        integrated(p, dt).radius == p.radius,
{
    vstd::arithmetic::div_mod::lemma_div_of0(p.mass as int);
    vstd::arithmetic::div_mod::lemma_div_of0(crate::fixed::SCALE as int);
    assert(fx_div(0, p.mass as int) == 0);
    assert(v2_div(p.force_accumulator, p.mass as int) == v2_zero());
    assert(fx_mul(0, dt) == 0);
    assert(v2_scale(v2_zero(), dt) == v2_zero());
    assert(integrated(p, dt).velocity == v2_add(p.velocity, v2_zero()));
    assert(v2_add(p.velocity, v2_zero()) == p.velocity);
}

/// Disks that do not strictly overlap feel no collision force at all;
/// disks that exactly touch do not strictly overlap, so the boundary
/// case contributes zero force too.
pub proof fn lemma_no_overlap_no_force(p1: Particle, p2: Particle, dt: int)
    requires
        !disks_overlap(p1, p2),
    ensures
        collided(p1, p2, dt) == (p1, p2),
{
}

/// Fetches the two particles at two different indices of the collection,
/// the one at the lower index first. The indices must differ: asking for
/// the same index twice is a caller error and is ruled out here.
pub fn get_two_particles(particles: &Vec<Particle>, index1: usize, index2: usize) -> (r: (
    Particle,
    Particle,
))
    requires
        index1 != index2,
        index1 < particles@.len(),
        index2 < particles@.len(),
    ensures
        r.0 == particles@[if index1 < index2 {
            index1 as int
        } else {
            index2 as int
        }],
        r.1 == particles@[if index1 < index2 {
            index2 as int
        } else {
            index1 as int
        }],
{
    let lo: usize = if index1 < index2 {
        index1
    } else {
        index2
    };
    let hi: usize = if index1 < index2 {
        index2
    } else {
        index1
    };
    (particles[lo], particles[hi])
}

} // verus!
