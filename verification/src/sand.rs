//! Granular dynamics: every unordered pair feels only the penalty
//! collision, every particle then picks up constant downward gravity and
//! wall collisions, and all particles integrate in parallel.

use vstd::prelude::*;
use crate::constants::GRAVITY;
use crate::controller::{Controller, DrawCircle, DrawColor, SimulationBounds, bounds_wf};
use crate::particle::{
    Particle, all_integrated, all_valid, applied_acceleration, collided, get_two_particles,
    wall_collided,
};
use crate::vec2::Vec2;

verus! {

/// The constant downward gravitational acceleration.
pub open spec fn gravity_vector() -> Vec2 {
    Vec2 { x: 0, y: GRAVITY }
}

/// The pair `(i, j)` of the collection replaced by its collision result.
pub open spec fn sand_apply_pair(s: Seq<Particle>, i: int, j: int, dt: int) -> Seq<Particle> {
    let pr = collided(s[i], s[j], dt);
    s.update(i, pr.0).update(j, pr.1)
}

/// The rest of the pairwise collision pass, starting at pair `(i, j)`, in
/// the order the tick's nested loops visit the pairs.
pub open spec fn sand_pass_from(s: Seq<Particle>, i: int, j: int, dt: int) -> Seq<Particle>
    decreases s.len() - i, s.len() - j,
{
    if i < 0 || j <= i {
        s
    } else if i >= s.len() - 1 {
        s
    } else if j >= s.len() {
        sand_pass_from(s, i + 1, i + 2, dt)
    } else {
        sand_pass_from(sand_apply_pair(s, i, j, dt), i, j + 1, dt)
    }
}

/// The whole pairwise collision pass of the sand mode.
pub open spec fn sand_pass(s: Seq<Particle>, dt: int) -> Seq<Particle> {
    sand_pass_from(s, 0, 1, dt)
}

/// The per-particle phase: constant gravity, then wall collisions.
pub open spec fn sand_prep(p: Particle, dt: int, b: SimulationBounds) -> Particle {
    wall_collided(applied_acceleration(p, gravity_vector()), dt, b)
}

pub open spec fn all_prepped(s: Seq<Particle>, dt: int, b: SimulationBounds) -> Seq<Particle> {
    s.map_values(|p: Particle| sand_prep(p, dt, b))
}

/// One full sand tick: collisions pairwise, gravity and walls per
/// particle, then integration; an empty collection is left untouched.
pub open spec fn sand_ticked(s: Seq<Particle>, dt: int, b: SimulationBounds) -> Seq<Particle> {
    if s.len() == 0 {
        s
    } else {
        all_integrated(all_prepped(sand_pass(s, dt), dt, b), dt)
    }
}

/// A collision only accumulates forces: mass, radius, position and
/// velocity of both particles are untouched.
pub proof fn lemma_collided_preserves(p1: Particle, p2: Particle, dt: int)
    ensures
        collided(p1, p2, dt).0.mass == p1.mass,
        collided(p1, p2, dt).0.radius == p1.radius,
        collided(p1, p2, dt).0.position == p1.position,
        collided(p1, p2, dt).0.velocity == p1.velocity,
        collided(p1, p2, dt).1.mass == p2.mass,
        collided(p1, p2, dt).1.radius == p2.radius,
        collided(p1, p2, dt).1.position == p2.position,
        collided(p1, p2, dt).1.velocity == p2.velocity,
{
}

/// The sand mode's draw data: one blue circle per particle, in domain
/// coordinates.
pub open spec fn sand_draw(s: Seq<Particle>) -> Seq<DrawCircle> {
    s.map_values(
        |p: Particle|
            DrawCircle {
                x: p.position.x,
                y: p.position.y,
                radius: p.radius,
                color: DrawColor::Blue,
            },
    )
}

pub struct SandController {
    pub particles: Vec<Particle>,
}

impl SandController {
    /// Consumes the validated body count from the external input
    /// collaborator and places the grains on the jittered grid.
    pub fn configure(&mut self, bounds: &SimulationBounds, body_count: usize)
        requires
            bounds_wf(*bounds),
            body_count as int <= crate::controller::max_body_count_spec(*bounds),
        ensures
            final(self).wf(),
            final(self).particles@.len() == body_count as int,
            forall|n: int|
                0 <= n < body_count as int ==> {
                    let p = #[trigger] final(self).particles@[n];
                    p.mass == crate::controller::BODY_MASS && p.radius
                        == crate::controller::BODY_RADIUS && p.velocity == crate::vec2::v2_zero()
                        && p.force_accumulator == crate::vec2::v2_zero()
                        && crate::controller::in_cell(
                        p,
                        *bounds,
                        crate::controller::ceil_sqrt(body_count as int),
                        n,
                    )
                },
            forall|n1: int, n2: int|
                0 <= n1 < n2 < body_count as int ==> !crate::particle::disks_overlap(
                    final(self).particles@[n1],
                    final(self).particles@[n2],
                ),
    {
        self.particles = crate::controller::default_fetch_parameters(bounds, body_count);
    }
}

impl Default for SandController {
    /// The empty, unconfigured state.
    fn default() -> (r: Self)
        ensures
            r.particles@.len() == 0,
            r.wf(),
    {
        SandController { particles: Vec::new() }
    }
}

impl Controller for SandController {
    open spec fn wf(&self) -> bool {
        all_valid(self.particles@)
    }

    open spec fn particles_view(&self) -> Seq<Particle> {
        self.particles@
    }

    open spec fn ticked_view(&self, dt: int, bounds: SimulationBounds) -> Seq<Particle> {
        sand_ticked(self.particles@, dt, bounds)
    }

    open spec fn tick_frame(&self, post: &Self) -> bool {
        true
    }

    open spec fn spec_name(&self) -> Seq<char> {
        "Sand"@
    }

    open spec fn draw_view(&self) -> Seq<DrawCircle> {
        sand_draw(self.particles@)
    }

    fn tick(&mut self, dt: i64, bounds: &SimulationBounds) {
        if self.particles.len() == 0 {
            return ;
        }
        let ghost orig = self.particles@;
        let len = self.particles.len();
        let mut i: usize = 0;
        while i + 1 < len
            invariant
                0 < len == self.particles@.len(),
                i < len,
                dt > 0,
                all_valid(self.particles@),
                sand_pass_from(self.particles@, i as int, i + 1, dt as int) == sand_pass_from(
                    orig,
                    0,
                    1,
                    dt as int,
                ),
            decreases len - i,
        {
            let mut j: usize = i + 1;
            while j < len
                invariant
                    0 < len == self.particles@.len(),
                    i + 1 < len,
                    i + 1 <= j <= len,
                    dt > 0,
                    all_valid(self.particles@),
                    sand_pass_from(self.particles@, i as int, j as int, dt as int)
                        == sand_pass_from(orig, 0, 1, dt as int),
                decreases len - j,
            {
                let ghost before = self.particles@;
                let (mut p1, mut p2) = get_two_particles(&self.particles, i, j);
                Particle::handle_collision(&mut p1, &mut p2, dt);
                self.particles[i] = p1;
                self.particles[j] = p2;
                proof {
                    lemma_collided_preserves(before[i as int], before[j as int], dt as int);
                    assert(self.particles@ == sand_apply_pair(before, i as int, j as int, dt as int));
                    assert(all_valid(self.particles@));
                    assert(sand_pass_from(before, i as int, j as int, dt as int) == sand_pass_from(
                        self.particles@,
                        i as int,
                        j + 1,
                        dt as int,
                    ));
                }
                j += 1;
            }
            i += 1;
        }
        proof {
            assert(sand_pass_from(self.particles@, i as int, i + 1, dt as int) == self.particles@);
            assert(self.particles@ == sand_pass(orig, dt as int));
        }
        let ghost passed = self.particles@;
        let gvec = Vec2 { x: 0, y: GRAVITY };
        let mut k: usize = 0;
        while k < len
            invariant
                0 < len == self.particles@.len(),
                k <= len,
                dt > 0,
                gvec == gravity_vector(),
                all_valid(self.particles@),
                passed.len() == len,
                forall|m: int| 0 <= m < k ==> self.particles@[m] == sand_prep(
                    passed[m],
                    dt as int,
                    *bounds,
                ),
                forall|m: int| k <= m < len ==> self.particles@[m] == passed[m],
            decreases len - k,
        {
            let mut p = self.particles[k];
            proof {
                assert(p == passed[k as int]);
            }
            p.apply_acceleration(&gvec);
            p.wall_collisions(dt, bounds);
            proof {
                assert(p == sand_prep(passed[k as int], dt as int, *bounds));
            }
            self.particles[k] = p;
            k += 1;
        }
        proof {
            assert(self.particles@ =~= all_prepped(passed, dt as int, *bounds));
        }
        Particle::update_vec(&mut self.particles, dt);
    }

    fn name(&self) -> (r: &'static str) {
        "Sand"
    }

    fn draw_data(&self) -> (r: Vec<DrawCircle>) {
        let mut out: Vec<DrawCircle> = Vec::new();
        let mut i: usize = 0;
        while i < self.particles.len()
            invariant
                i <= self.particles@.len(),
                out@.len() == i,
                forall|m: int| 0 <= m < i ==> out@[m] == sand_draw(self.particles@)[m],
            decreases self.particles@.len() - i,
        {
            let p = self.particles[i];
            out.push(
                DrawCircle {
                    x: p.position.x,
                    y: p.position.y,
                    radius: p.radius,
                    color: DrawColor::Blue,
                },
            );
            i += 1;
        }
        proof {
            assert(out@ =~= sand_draw(self.particles@));
        }
        out
    }
}

} // verus!
