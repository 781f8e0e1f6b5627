//! Mass-spring soft-body deformation: a fixed 2-by-2 node lattice whose
//! orthogonal and diagonal edges act as Hookean spring-dampers with rest
//! lengths precomputed from the initial placement; gravity and wall
//! collisions then act per node, and all nodes integrate in parallel.

use vstd::prelude::*;
use crate::constants::{GRAVITY, damping_fx, damping_coefficient};
use crate::controller::{Controller, DrawCircle, DrawColor, SimulationBounds, bounds_wf};
use crate::fixed::{SCALE, clamp_i64, fx_div, fx_mul, fxdiv, fxmul, sat_add, sat_sub};
use crate::particle::{Particle, all_integrated, all_valid, applied_force, get_two_particles};
use crate::sand::{all_prepped, gravity_vector, sand_prep};
use crate::vec2::{Vec2, v2_dir, v2_dot, v2_neg, v2_norm, v2_scale, v2_sub, v2_zero};

verus! {

/// The radius of a soft-body node.
pub const SOFT_RADIUS: i64 = 20000;

/// The mass of a soft-body node.
pub const SOFT_MASS: i64 = 100000;

/// One spring-damper edge between a node and its neighbour: a Hookean
/// force of magnitude `k * (rest - |d|)` along the normalized direction
/// `d = neighbor.position - node.position`, applied to the neighbour and
/// negated on the node, then a damping force along the same direction
/// proportional to the normal-projected relative velocity. Coincident
/// endpoints produce no force, the defined fallback.
pub open spec fn spring_pair(neighbor: Particle, node: Particle, rest: int, k: int) -> (
    Particle,
    Particle,
) {
    let d = v2_sub(neighbor.position, node.position);
    let deformation = clamp_i64(rest - v2_norm(d));
    let dn = v2_dir(d);
    let force = v2_scale(dn, fx_mul(k, deformation));
    let rel = v2_sub(node.velocity, neighbor.velocity);
    let fd = v2_scale(dn, clamp_i64(0 - fx_mul(damping_fx(), v2_dot(rel, dn))));
    (
        applied_force(applied_force(neighbor, force), v2_neg(fd)),
        applied_force(applied_force(node, v2_neg(force)), fd),
    )
}

/// How many edges the pass still visits from pair `(i, j)` on, following
/// exactly the tick's nested loops.
pub open spec fn rem_pairs(len: int, i: int, j: int) -> int
    decreases len - i, len - j,
{
    if i < 0 || j <= i {
        0
    } else if i >= len - 1 {
        0
    } else if j >= len {
        rem_pairs(len, i + 1, i + 2)
    } else {
        1 + rem_pairs(len, i, j + 1)
    }
}

pub proof fn lemma_rem_pairs_nonneg(len: int, i: int, j: int)
    ensures
        rem_pairs(len, i, j) >= 0,
    decreases len - i, len - j,
{
    if i < 0 || j <= i {
    } else if i >= len - 1 {
    } else if j >= len {
        lemma_rem_pairs_nonneg(len, i + 1, i + 2);
    } else {
        lemma_rem_pairs_nonneg(len, i, j + 1);
    }
}

/// The rest of the spring pass from pair `(i, j)` on, consuming rest
/// lengths from index `e` of the precomputed table; the particle at the
/// larger index is the neighbour, as the lattice construction orders
/// them.
pub open spec fn spring_pass_from(
    s: Seq<Particle>,
    rests: Seq<i64>,
    k: int,
    i: int,
    j: int,
    e: int,
) -> Seq<Particle>
    decreases s.len() - i, s.len() - j,
{
    if i < 0 || j <= i {
        s
    } else if i >= s.len() - 1 {
        s
    } else if j >= s.len() {
        spring_pass_from(s, rests, k, i + 1, i + 2, e)
    } else {
        let pr = spring_pair(s[j], s[i], rests[e] as int, k);
        spring_pass_from(s.update(j, pr.0).update(i, pr.1), rests, k, i, j + 1, e + 1)
    }
}

/// The whole spring force pass.
pub open spec fn spring_pass(s: Seq<Particle>, rests: Seq<i64>, k: int) -> Seq<Particle> {
    spring_pass_from(s, rests, k, 0, 1, 0)
}

/// One full soft-body tick: the spring pass over every configured edge,
/// gravity and wall collisions per node, then integration; an empty
/// collection is left untouched.
pub open spec fn softbody_ticked(
    s: Seq<Particle>,
    rests: Seq<i64>,
    k: int,
    dt: int,
    b: SimulationBounds,
) -> Seq<Particle> {
    if s.len() == 0 {
        s
    } else {
        all_integrated(all_prepped(spring_pass(s, rests, k), dt, b), dt)
    }
}

/// A spring edge only accumulates forces on its two endpoints.
pub proof fn lemma_spring_pair_preserves(neighbor: Particle, node: Particle, rest: int, k: int)
    ensures
        spring_pair(neighbor, node, rest, k).0.mass == neighbor.mass,
        spring_pair(neighbor, node, rest, k).0.radius == neighbor.radius,
        spring_pair(neighbor, node, rest, k).0.position == neighbor.position,
        spring_pair(neighbor, node, rest, k).0.velocity == neighbor.velocity,
        spring_pair(neighbor, node, rest, k).1.mass == node.mass,
        spring_pair(neighbor, node, rest, k).1.radius == node.radius,
        spring_pair(neighbor, node, rest, k).1.position == node.position,
        spring_pair(neighbor, node, rest, k).1.velocity == node.velocity,
{
}

/// The soft-body mode's draw data: one red circle per node, in domain
/// coordinates.
pub open spec fn softbody_draw(s: Seq<Particle>) -> Seq<DrawCircle> {
    s.map_values(
        |p: Particle|
            DrawCircle {
                x: p.position.x,
                y: p.position.y,
                radius: p.radius,
                color: DrawColor::Red,
            },
    )
}

/// A fresh lattice node at the given position.
pub open spec fn soft_node(x: i64, y: i64) -> Particle {
    Particle {
        mass: SOFT_MASS,
        radius: SOFT_RADIUS,
        position: Vec2 { x, y },
        velocity: v2_zero(),
        force_accumulator: v2_zero(),
    }
}

/// The four nodes of the 2-by-2 lattice centred in the domain, in row
/// order: the offset is half the leftover extent on each axis.
pub open spec fn lattice_nodes(b: SimulationBounds, side: int) -> Seq<Particle> {
    let ox = crate::fixed::cl(fx_div(clamp_i64(b.0 - side), 2 * (SCALE as int)));
    let oy = crate::fixed::cl(fx_div(clamp_i64(b.1 - side), 2 * (SCALE as int)));
    let ox2 = crate::fixed::cl(ox + side);
    let oy2 = crate::fixed::cl(oy + side);
    seq![
        soft_node(ox, oy),
        soft_node(ox2, oy),
        soft_node(ox, oy2),
        soft_node(ox2, oy2),
    ]
}

/// The rest length of the edge between nodes `i` and `j`: the distance of
/// their initial positions.
pub open spec fn rest_length(s: Seq<Particle>, i: int, j: int) -> i64 {
    crate::fixed::cl(v2_norm(v2_sub(s[i].position, s[j].position)))
}

/// The six precomputed rest lengths, in the order the spring pass
/// consumes them.
pub open spec fn lattice_rests(s: Seq<Particle>) -> Seq<i64> {
    seq![
        rest_length(s, 0, 1),
        rest_length(s, 0, 2),
        rest_length(s, 0, 3),
        rest_length(s, 1, 2),
        rest_length(s, 1, 3),
        rest_length(s, 2, 3),
    ]
}

pub struct SoftbodyController {
    pub particles: Vec<Particle>,
    pub edge_lengths: Vec<i64>,
    pub k: i64,
}

impl SoftbodyController {
    /// One spring-damper edge, applied to its two endpoints.
    pub fn calculate_force(neighbor: &mut Particle, node: &mut Particle, d: i64, k: i64)
        ensures
            (*final(neighbor), *final(node)) == spring_pair(*old(neighbor), *old(node), d as int, k as int),
    {
        let distance = neighbor.position.minus(&node.position);
        let deformation = sat_sub(d, distance.norm());
        let direction = distance.normalize();
        let force = direction.scaled(fxmul(k, deformation));
        let rel = node.velocity.minus(&neighbor.velocity);
        neighbor.apply_force(&force);
        node.apply_force(&force.negated());
        let damp = damping_coefficient();
        let fd = direction.scaled(sat_sub(0, fxmul(damp, rel.dot(&direction))));
        node.apply_force(&fd);
        neighbor.apply_force(&fd.negated());
    }

    /// Consumes the validated side length and spring stiffness from the
    /// external input collaborator, instantiates the 2-by-2 lattice
    /// centred in the bounds, and precomputes the rest lengths of the
    /// four orthogonal and two diagonal edges from the initial placement.
    pub fn configure(&mut self, bounds: &SimulationBounds, side_length: i64, k: i64)
        requires
            old(self).particles@.len() == 0,
            old(self).edge_lengths@.len() == 0,
            bounds_wf(*bounds),
            2 * (SOFT_RADIUS as int) <= side_length as int,
            side_length as int <= (if bounds.0 <= bounds.1 {
                bounds.0 as int
            } else {
                bounds.1 as int
            }) - 2 * (SOFT_RADIUS as int),
        ensures
            final(self).wf(),
            final(self).k == k,
            final(self).particles@ == lattice_nodes(*bounds, side_length as int),
            final(self).edge_lengths@ == lattice_rests(lattice_nodes(*bounds, side_length as int)),
    {
        self.k = k;
        let ox = fxdiv(sat_sub(bounds.0, side_length), 2 * SCALE);
        let oy = fxdiv(sat_sub(bounds.1, side_length), 2 * SCALE);
        let ox2 = sat_add(ox, side_length);
        let oy2 = sat_add(oy, side_length);
        self.particles.push(Particle::new(SOFT_MASS, SOFT_RADIUS, Vec2::new(ox, oy)));
        self.particles.push(Particle::new(SOFT_MASS, SOFT_RADIUS, Vec2::new(ox2, oy)));
        self.particles.push(Particle::new(SOFT_MASS, SOFT_RADIUS, Vec2::new(ox, oy2)));
        self.particles.push(Particle::new(SOFT_MASS, SOFT_RADIUS, Vec2::new(ox2, oy2)));
        proof {
            assert(self.particles@ =~= lattice_nodes(*bounds, side_length as int));
        }
        let p0 = self.particles[0];
        let p1 = self.particles[1];
        let p2 = self.particles[2];
        let p3 = self.particles[3];
        self.edge_lengths.push(p0.position.minus(&p1.position).norm());
        self.edge_lengths.push(p0.position.minus(&p2.position).norm());
        self.edge_lengths.push(p0.position.minus(&p3.position).norm());
        self.edge_lengths.push(p1.position.minus(&p2.position).norm());
        self.edge_lengths.push(p1.position.minus(&p3.position).norm());
        self.edge_lengths.push(p2.position.minus(&p3.position).norm());
        proof {
            assert(self.edge_lengths@ =~= lattice_rests(self.particles@));
            reveal_with_fuel(rem_pairs, 12);
            assert(rem_pairs(4, 0, 1) == 6);
        }
    }
}

impl Default for SoftbodyController {
    /// The empty, unconfigured state.
    fn default() -> (r: Self)
        ensures
            r.particles@.len() == 0,
            r.edge_lengths@.len() == 0,
            r.k == 0,
            r.wf(),
    {
        SoftbodyController { particles: Vec::new(), edge_lengths: Vec::new(), k: 0 }
    }
}

impl Controller for SoftbodyController {
    open spec fn wf(&self) -> bool {
        all_valid(self.particles@) && self.edge_lengths@.len() == rem_pairs(
            self.particles@.len() as int,
            0,
            1,
        )
    }

    open spec fn particles_view(&self) -> Seq<Particle> {
        self.particles@
    }

    open spec fn ticked_view(&self, dt: int, bounds: SimulationBounds) -> Seq<Particle> {
        softbody_ticked(self.particles@, self.edge_lengths@, self.k as int, dt, bounds)
    }

    open spec fn tick_frame(&self, post: &Self) -> bool {
        post.edge_lengths == self.edge_lengths && post.k == self.k
    }

    open spec fn spec_name(&self) -> Seq<char> {
        "Softbody"@
    }

    open spec fn draw_view(&self) -> Seq<DrawCircle> {
        softbody_draw(self.particles@)
    }

    fn tick(&mut self, dt: i64, bounds: &SimulationBounds) {
        if self.particles.len() == 0 {
            return ;
        }
        let ghost orig = self.particles@;
        let len = self.particles.len();
        let mut e: usize = 0;
        let mut i: usize = 0;
        while i + 1 < len
            invariant
                0 < len == self.particles@.len(),
                i < len,
                dt > 0,
                all_valid(self.particles@),
                e + rem_pairs(len as int, i as int, i + 1) == self.edge_lengths@.len(),
                spring_pass_from(
                    self.particles@,
                    self.edge_lengths@,
                    self.k as int,
                    i as int,
                    i + 1,
                    e as int,
                ) == spring_pass(orig, self.edge_lengths@, self.k as int),
                self.edge_lengths == old(self).edge_lengths,
                self.k == old(self).k,
            decreases len - i,
        {
            let mut j: usize = i + 1;
            while j < len
                invariant
                    0 < len == self.particles@.len(),
                    i + 1 < len,
                    i + 1 <= j <= len,
                    dt > 0,
                    all_valid(self.particles@),
                    e + rem_pairs(len as int, i as int, j as int) == self.edge_lengths@.len(),
                    spring_pass_from(
                        self.particles@,
                        self.edge_lengths@,
                        self.k as int,
                        i as int,
                        j as int,
                        e as int,
                    ) == spring_pass(orig, self.edge_lengths@, self.k as int),
                    self.edge_lengths == old(self).edge_lengths,
                    self.k == old(self).k,
                decreases len - j,
            {
                let ghost before = self.particles@;
                proof {
                    lemma_rem_pairs_nonneg(len as int, i as int, j + 1);
                    assert(rem_pairs(len as int, i as int, j as int) == 1 + rem_pairs(
                        len as int,
                        i as int,
                        j + 1,
                    ));
                    assert(e < self.edge_lengths@.len());
                }
                let el: usize = self.edge_lengths.len();
                assert(e < el);
                let (p1c, p2c) = get_two_particles(&self.particles, i, j);
                let mut node = p1c;
                let mut neighbor = p2c;
                let rest = self.edge_lengths[e];
                Self::calculate_force(&mut neighbor, &mut node, rest, self.k);
                self.particles[i] = node;
                self.particles[j] = neighbor;
                proof {
                    let pr = spring_pair(
                        before[j as int],
                        before[i as int],
                        rest as int,
                        self.k as int,
                    );
                    lemma_spring_pair_preserves(
                        before[j as int],
                        before[i as int],
                        rest as int,
                        self.k as int,
                    );
                    assert(neighbor == pr.0);
                    assert(node == pr.1);
                    assert(self.particles@ == before.update(j as int, pr.0).update(i as int, pr.1));
                    assert(all_valid(self.particles@));
                }
                j += 1;
                e += 1;
            }
            i += 1;
        }
        proof {
            assert(spring_pass_from(
                self.particles@,
                self.edge_lengths@,
                self.k as int,
                i as int,
                i + 1,
                e as int,
            ) == self.particles@);
            assert(self.particles@ == spring_pass(orig, self.edge_lengths@, self.k as int));
        }
        let ghost passed = self.particles@;
        let gvec = Vec2 { x: 0, y: GRAVITY };
        let mut m: usize = 0;
        while m < len
            invariant
                0 < len == self.particles@.len(),
                m <= len,
                dt > 0,
                gvec == gravity_vector(),
                all_valid(self.particles@),
                passed.len() == len,
                forall|q: int|
                    0 <= q < m ==> self.particles@[q] == sand_prep(passed[q], dt as int, *bounds),
                forall|q: int| m <= q < len ==> self.particles@[q] == passed[q],
                self.edge_lengths == old(self).edge_lengths,
                self.k == old(self).k,
            decreases len - m,
        {
            let mut p = self.particles[m];
            proof {
                assert(p == passed[m as int]);
            }
            p.apply_acceleration(&gvec);
            p.wall_collisions(dt, bounds);
            proof {
                assert(p == sand_prep(passed[m as int], dt as int, *bounds));
            }
            self.particles[m] = p;
            m += 1;
        }
        proof {
            assert(self.particles@ =~= all_prepped(passed, dt as int, *bounds));
        }
        Particle::update_vec(&mut self.particles, dt);
    }

    fn name(&self) -> (r: &'static str) {
        "Softbody"
    }

    fn draw_data(&self) -> (r: Vec<DrawCircle>) {
        let mut out: Vec<DrawCircle> = Vec::new();
        let mut i: usize = 0;
        while i < self.particles.len()
            invariant
                i <= self.particles@.len(),
                out@.len() == i,
                forall|m: int| 0 <= m < i ==> out@[m] == softbody_draw(self.particles@)[m],
            decreases self.particles@.len() - i,
        {
            let p = self.particles[i];
            out.push(
                DrawCircle {
                    x: p.position.x,
                    y: p.position.y,
                    radius: p.radius,
                    color: DrawColor::Red,
                },
            );
            i += 1;
        }
        proof {
            assert(out@ =~= softbody_draw(self.particles@));
        }
        out
    }
}

} // verus!
