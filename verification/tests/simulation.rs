use particle_sandbox::constants::{DT, GRAVITY, damping_coefficient};
use particle_sandbox::controller::{Controller, DrawColor, SimulationBounds, max_body_count};
use particle_sandbox::gravity::{GravityController, ViewKey};
use particle_sandbox::particle::Particle;
use particle_sandbox::sand::SandController;
use particle_sandbox::softbody::SoftbodyController;
use particle_sandbox::vec2::Vec2;
use particle_sandbox::SCALE;

#[test]
fn test_constants() {
    println!("{}", damping_coefficient());
}

#[test]
fn damping_coefficient_value() {
    // -ln(0.01) * sqrt(pi^2 + ln(0.01)^2) is about 25.67; the fixed-point
    // evaluation lands within a few thousandths.
    let d = damping_coefficient();
    assert!(d >= 25600 && d <= 25700, "damping {}", d);
    assert_eq!(d, 25668);
}

#[test]
fn integrate_zero_force_moves_by_velocity() {
    let mut p = Particle::new(2000, 1000, Vec2::new(10000, 20000));
    p.velocity = Vec2::new(3000, -1000);
    p.tick(DT);
    assert_eq!(p.velocity, Vec2::new(3000, -1000));
    assert_eq!(p.position, Vec2::new(10150, 19950));
    assert_eq!(p.force_accumulator, Vec2::new(0, 0));
}

#[test]
fn integrate_applies_force_then_moves() {
    let mut p = Particle::new(2000, 1000, Vec2::new(0, 0));
    p.apply_force(&Vec2::new(4000, 0));
    p.tick(DT);
    // velocity += (force / mass) * dt = (4 / 2) * 0.05 = 0.1
    assert_eq!(p.velocity, Vec2::new(100, 0));
    // position += velocity * dt = 0.1 * 0.05 = 0.005
    assert_eq!(p.position, Vec2::new(5, 0));
    assert_eq!(p.force_accumulator, Vec2::new(0, 0));
}

#[test]
fn apply_acceleration_scales_by_mass() {
    let mut p = Particle::new(10000, 1000, Vec2::new(0, 0));
    p.apply_acceleration(&Vec2::new(0, GRAVITY));
    // force = acceleration * mass = 9.81 * 10 = 98.1
    assert_eq!(p.force_accumulator, Vec2::new(0, 98100));
}

#[test]
fn no_collision_force_when_disks_apart() {
    let mut p1 = Particle::new(1000000, 10000, Vec2::new(0, 0));
    let mut p2 = Particle::new(1000000, 10000, Vec2::new(30000, 0));
    let before1 = p1.clone();
    let before2 = p2.clone();
    Particle::handle_collision(&mut p1, &mut p2, DT);
    assert_eq!(p1, before1);
    assert_eq!(p2, before2);
}

#[test]
fn no_collision_force_when_disks_exactly_touch() {
    // radius sum 20 units, centre distance exactly 20 units: strict
    // inequality required, so the resolver contributes zero force.
    let mut p1 = Particle::new(1000000, 10000, Vec2::new(0, 0));
    let mut p2 = Particle::new(1000000, 10000, Vec2::new(20000, 0));
    let before1 = p1.clone();
    let before2 = p2.clone();
    Particle::handle_collision(&mut p1, &mut p2, DT);
    assert_eq!(p1, before1);
    assert_eq!(p2, before2);
}

#[test]
fn overlapping_disks_push_apart() {
    let mut p1 = Particle::new(1000000, 10000, Vec2::new(0, 0));
    let mut p2 = Particle::new(1000000, 10000, Vec2::new(15000, 0));
    Particle::handle_collision(&mut p1, &mut p2, DT);
    // p1 sits left of p2, so p1 is pushed further left, p2 right, and the
    // forces are exact opposites.
    assert!(p1.force_accumulator.x < 0);
    assert!(p2.force_accumulator.x > 0);
    assert_eq!(p1.force_accumulator.x, -p2.force_accumulator.x);
    assert_eq!(p1.force_accumulator.y, -p2.force_accumulator.y);
}

#[test]
fn coincident_centres_skip_collision() {
    let mut p1 = Particle::new(1000000, 10000, Vec2::new(5000, 5000));
    let mut p2 = Particle::new(1000000, 10000, Vec2::new(5000, 5000));
    let before1 = p1.clone();
    Particle::handle_collision(&mut p1, &mut p2, DT);
    assert_eq!(p1, before1);
}

#[test]
fn two_body_momentum_conserved_over_ticks() {
    let bounds = SimulationBounds(400000, 400000);
    let mut c = GravityController::default();
    let mut a = Particle::new(1000000, 10000, Vec2::new(100000, 200000));
    let mut b = Particle::new(1000000, 10000, Vec2::new(300000, 200000));
    a.velocity = Vec2::new(0, 0);
    b.velocity = Vec2::new(0, 0);
    c.particles.push(a);
    c.particles.push(b);
    for _ in 0..100 {
        c.tick(DT, &bounds);
        // equal masses: the total momentum is the mass times the velocity
        // sum, and the sum stays exactly zero.
        let v0 = c.particles[0].velocity;
        let v1 = c.particles[1].velocity;
        assert_eq!(v0.x + v1.x, 0);
        assert_eq!(v0.y + v1.y, 0);
    }
    // the two bodies attracted each other: they did move.
    assert_ne!(c.particles[0].position, Vec2::new(100000, 200000));
}

#[test]
fn falling_particle_rests_on_floor() {
    let bounds = SimulationBounds(400000, 400000);
    let mut p = Particle::new(10000, 10000, Vec2::new(200000, 300000));
    for _ in 0..20000 {
        p.apply_acceleration(&Vec2::new(0, GRAVITY));
        p.wall_collisions(DT, &bounds);
        p.tick(DT);
    }
    // resting contact: the disk bottom sits at the floor, within a small
    // penetration (the penalty equilibrium), and the velocity has decayed
    // to near zero.
    let bottom = p.position.y + p.radius;
    assert!(
        (bottom - bounds.1).abs() <= 300,
        "bottom {} floor {}",
        bottom,
        bounds.1
    );
    assert!(p.velocity.y.abs() <= 600, "vy {}", p.velocity.y);
    assert_eq!(p.velocity.x, 0);
}

#[test]
fn softbody_lattice_deformations_decay() {
    // A huge domain keeps the walls out of reach; uniform gravity changes
    // every node's velocity identically, so the spring geometry evolves as
    // if unforced after the one-time perturbation.
    let bounds = SimulationBounds(1_000_000_000_000, 1_000_000_000_000);
    let mut c = SoftbodyController {
        particles: Vec::new(),
        edge_lengths: Vec::new(),
        k: 0,
    };
    c.configure(&bounds, 100000, 50000);
    assert_eq!(c.particles.len(), 4);
    assert_eq!(c.edge_lengths.len(), 6);
    // one-time small positional perturbation of one node
    c.particles[0].position.x += 5000;
    for _ in 0..3000 {
        c.tick(DT, &bounds);
    }
    // all spring deformations have decayed close to zero
    let idx = [(0, 1), (0, 2), (0, 3), (1, 2), (1, 3), (2, 3)];
    for (e, (i, j)) in idx.iter().enumerate() {
        let pi = c.particles[*i].position;
        let pj = c.particles[*j].position;
        let dist = pi.minus(&pj).norm();
        let deformation = (c.edge_lengths[e] - dist).abs();
        assert!(
            deformation <= 300,
            "edge {} deformation {} (rest {}, dist {})",
            e,
            deformation,
            c.edge_lengths[e],
            dist
        );
    }
}

#[test]
fn gravity_end_to_end_four_bodies() {
    let bounds = SimulationBounds(400000, 400000);
    let max = max_body_count(&bounds);
    assert!(max >= 4);
    let mut c = GravityController::default();
    c.configure(&bounds, 4);
    assert_eq!(c.particles.len(), 4);
    // no pair initially overlaps: centre distance at least the radius sum
    for i in 0..4 {
        for j in (i + 1)..4 {
            let pi = c.particles[i].position;
            let pj = c.particles[j].position;
            let dx = (pi.x - pj.x) as i128;
            let dy = (pi.y - pj.y) as i128;
            let rsum = (c.particles[i].radius + c.particles[j].radius) as i128;
            assert!(
                dx * dx + dy * dy >= rsum * rsum,
                "pair {} {} overlaps",
                i,
                j
            );
        }
    }
    let sx_before: i128 = c.particles.iter().map(|p| p.position.x as i128).sum();
    let sy_before: i128 = c.particles.iter().map(|p| p.position.y as i128).sum();
    c.tick(DT, &bounds);
    let sx_after: i128 = c.particles.iter().map(|p| p.position.x as i128).sum();
    let sy_after: i128 = c.particles.iter().map(|p| p.position.y as i128).sum();
    // no external force: the centre of mass stays put (up to the last
    // fixed-point digit of each coordinate)
    assert!((sx_after - sx_before).abs() <= 20);
    assert!((sy_after - sy_before).abs() <= 20);
    // the bodies attract: every velocity became non-zero
    for p in &c.particles {
        assert!(
            p.velocity.x != 0 || p.velocity.y != 0,
            "velocity stayed zero"
        );
    }
}

#[test]
fn sand_particles_fall_and_settle_above_floor() {
    let bounds = SimulationBounds(400000, 400000);
    let mut c = SandController::default();
    c.configure(&bounds, 3);
    assert_eq!(c.particles.len(), 3);
    for _ in 0..20000 {
        c.tick(DT, &bounds);
    }
    for p in &c.particles {
        // every grain ends inside the domain, resting no deeper than a
        // small penalty penetration below the floor
        assert!(p.position.y + p.radius <= bounds.1 + 1000, "sunk: {}", p.position.y);
        assert!(p.position.y - p.radius >= -1000, "above ceiling: {}", p.position.y);
    }
}

#[test]
fn controller_names_are_stable() {
    let g = GravityController::default();
    let s = SandController::default();
    let b = SoftbodyController {
        particles: Vec::new(),
        edge_lengths: Vec::new(),
        k: 0,
    };
    assert_eq!(g.name(), "Gravity");
    assert_eq!(s.name(), "Sand");
    assert_eq!(b.name(), "Softbody");
}

#[test]
fn empty_controllers_tolerate_ticks() {
    let bounds = SimulationBounds(400000, 400000);
    let mut g = GravityController::default();
    let mut s = SandController::default();
    let mut b = SoftbodyController {
        particles: Vec::new(),
        edge_lengths: Vec::new(),
        k: 0,
    };
    g.tick(DT, &bounds);
    s.tick(DT, &bounds);
    b.tick(DT, &bounds);
    assert!(g.particles.is_empty());
    assert!(s.particles.is_empty());
    assert!(b.particles.is_empty());
}

#[test]
fn gravity_draw_data_marks_center_of_mass() {
    let bounds = SimulationBounds(400000, 400000);
    let mut c = GravityController::default();
    c.configure(&bounds, 2);
    let data = c.draw_data();
    assert_eq!(data.len(), 3);
    assert_eq!(data[0].color, DrawColor::Blue);
    assert_eq!(data[1].color, DrawColor::Blue);
    assert_eq!(data[2].color, DrawColor::Red);
    // with the view scale at one, positions pass through untouched
    assert_eq!(data[0].x, c.particles[0].position.x);
    assert_eq!(data[0].y, c.particles[0].position.y);
    // the marker sits at the mean position of the two equal masses, up to
    // fixed-point truncation
    let mid_x = (c.particles[0].position.x + c.particles[1].position.x) / 2;
    assert!((data[2].x - mid_x).abs() <= 2, "marker {} mid {}", data[2].x, mid_x);
}

#[test]
fn view_keys_change_only_the_scale() {
    let bounds = SimulationBounds(400000, 400000);
    let mut c = GravityController::default();
    c.configure(&bounds, 2);
    let particles_before = c.particles.clone();
    c.handle_key_down(ViewKey::ZoomOut);
    assert_eq!(c.scale, 1050);
    c.handle_key_down(ViewKey::ZoomIn);
    assert_eq!(c.scale, 1000);
    c.handle_key_down(ViewKey::Reset);
    assert_eq!(c.scale, SCALE);
    assert_eq!(c.particles, particles_before);
}

#[test]
fn max_body_count_matches_grid_formula() {
    // 400 units across, 20-unit diameter bodies: 19 columns, squared.
    let bounds = SimulationBounds(400000, 400000);
    assert_eq!(max_body_count(&bounds), 361);
    // the smaller side governs
    let narrow = SimulationBounds(400000, 60000);
    assert_eq!(max_body_count(&narrow), 4);
}

#[test]
fn wall_collision_pushes_back_inside() {
    let bounds = SimulationBounds(400000, 400000);
    // disk bottom 5 units below the floor
    let mut p = Particle::new(10000, 10000, Vec2::new(200000, 395000));
    p.wall_collisions(DT, &bounds);
    // the floor pushes up
    assert!(p.force_accumulator.y < 0);
    // a disk fully inside feels nothing
    let mut q = Particle::new(10000, 10000, Vec2::new(200000, 200000));
    q.wall_collisions(DT, &bounds);
    assert_eq!(q.force_accumulator, Vec2::new(0, 0));
}

#[test]
fn update_vec_integrates_every_particle() {
    let mut particles = vec![
        Particle::new(1000, 1000, Vec2::new(0, 0)),
        Particle::new(1000, 1000, Vec2::new(100000, 0)),
        Particle::new(1000, 1000, Vec2::new(0, 100000)),
    ];
    particles[0].velocity = Vec2::new(2000, 0);
    particles[1].velocity = Vec2::new(0, -4000);
    particles[2].apply_force(&Vec2::new(1000, 0));
    Particle::update_vec(&mut particles, DT);
    // position += velocity * dt
    assert_eq!(particles[0].position, Vec2::new(100, 0));
    assert_eq!(particles[1].position, Vec2::new(100000, -200));
    // velocity += (force / mass) * dt = (1 / 1) * 0.05 first
    assert_eq!(particles[2].velocity, Vec2::new(50, 0));
    assert_eq!(particles[2].position, Vec2::new(2, 100000));
    for p in &particles {
        assert_eq!(p.force_accumulator, Vec2::new(0, 0));
    }
}

#[test]
fn get_two_particles_orders_by_index() {
    let particles = vec![
        Particle::new(1000, 1000, Vec2::new(1, 0)),
        Particle::new(2000, 1000, Vec2::new(2, 0)),
        Particle::new(3000, 1000, Vec2::new(3, 0)),
    ];
    let (a, b) = particle_sandbox::particle::get_two_particles(&particles, 2, 0);
    assert_eq!(a.position.x, 1);
    assert_eq!(b.position.x, 3);
}

#[test]
fn all_four_walls_push_back() {
    let bounds = SimulationBounds(400000, 400000);
    let cases = [
        // (position, expected force sign on x, on y)
        (Vec2::new(200000, 395000), 0, -1), // floor pushes up
        (Vec2::new(200000, 5000), 0, 1),    // ceiling pushes down the normal, positive y
        (Vec2::new(395000, 200000), -1, 0), // right wall pushes left
        (Vec2::new(5000, 200000), 1, 0),    // left wall pushes right
    ];
    for (pos, sx, sy) in cases {
        let mut p = Particle::new(10000, 10000, pos);
        p.wall_collisions(DT, &bounds);
        assert_eq!(p.force_accumulator.x.signum(), sx, "at {:?}", pos);
        assert_eq!(p.force_accumulator.y.signum(), sy, "at {:?}", pos);
    }
}

#[test]
fn transform_position_recentres_and_scales() {
    let bounds = SimulationBounds(400000, 400000);
    let mut c = GravityController::default();
    c.configure(&bounds, 1);
    // zoomed out one step: scale 1.05
    c.handle_key_down(ViewKey::ZoomOut);
    assert_eq!(c.scale, 1050);
    // x' = (x + bounds * (scale - 1) / 2) / scale
    // for x = 200 units: (200 + 400 * 0.025) / 1.05 = 210 / 1.05 = 200
    let (tx, ty) = c.transform_position(200000, 200000);
    assert_eq!(tx, 200000);
    assert_eq!(ty, 200000);
    // for x = 0: 10 / 1.05 is about 9.523
    let (ox, _) = c.transform_position(0, 200000);
    assert!((ox - 9523).abs() <= 2, "ox {}", ox);
}

#[test]
fn sand_draw_data_is_one_blue_circle_per_grain() {
    let bounds = SimulationBounds(400000, 400000);
    let mut c = SandController::default();
    c.configure(&bounds, 3);
    let data = c.draw_data();
    assert_eq!(data.len(), 3);
    for (d, p) in data.iter().zip(c.particles.iter()) {
        assert_eq!(d.x, p.position.x);
        assert_eq!(d.y, p.position.y);
        assert_eq!(d.radius, p.radius);
        assert_eq!(d.color, DrawColor::Blue);
    }
}

#[test]
fn softbody_configure_builds_centred_lattice() {
    let bounds = SimulationBounds(400000, 400000);
    let mut c = SoftbodyController::default();
    c.configure(&bounds, 100000, 20000);
    assert_eq!(c.k, 20000);
    assert_eq!(c.particles.len(), 4);
    // centred: offset (400 - 100) / 2 = 150 units on both axes
    assert_eq!(c.particles[0].position, Vec2::new(150000, 150000));
    assert_eq!(c.particles[1].position, Vec2::new(250000, 150000));
    assert_eq!(c.particles[2].position, Vec2::new(150000, 250000));
    assert_eq!(c.particles[3].position, Vec2::new(250000, 250000));
    // orthogonal edges at the side length, diagonals at side * sqrt(2)
    assert_eq!(c.edge_lengths.len(), 6);
    assert_eq!(c.edge_lengths[0], 100000);
    assert_eq!(c.edge_lengths[1], 100000);
    assert_eq!(c.edge_lengths[2], 141421);
    assert_eq!(c.edge_lengths[3], 141421);
    assert_eq!(c.edge_lengths[4], 100000);
    assert_eq!(c.edge_lengths[5], 100000);
}
