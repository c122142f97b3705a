use particle_sim::Particle;
use particle_sim::Simulation;
use particle_sim::fixed::SCALE;
use particle_sim::sim::DT_DEFAULT;
use particle_sim::sim::ST_DEFAULT;
use particle_sim::sim::VEL_RANGE;
use particle_sim::sim::WORLD_X_MAX;
use particle_sim::sim::WORLD_Y_MAX;

fn p(x: i64, y: i64, vx: i64, vy: i64) -> Particle {
    Particle { x, y, vx, vy, mass: SCALE }
}

#[test]
fn empty_population_step_is_noop() {
    let mut sim = Simulation::new(0, 800 * SCALE, 600 * SCALE, 7);
    assert_eq!(sim.get_particles().len(), 0);
    let diag = sim.step();
    assert!(diag.is_none());
    assert_eq!(sim.get_particles().len(), 0);

    let mut sim2 = Simulation::from_particles(Vec::new(), DT_DEFAULT, ST_DEFAULT);
    assert!(sim2.step().is_none());
    assert_eq!(sim2.get_particles().len(), 0);
}

#[test]
fn single_particle_moves_straight() {
    // x = 100, y = 200, vx = 2, vy = -1, dt = 0.05: no pair, no wall.
    let mut sim = Simulation::from_particles(
        vec![p(100 * SCALE, 200 * SCALE, 2 * SCALE, -SCALE)],
        DT_DEFAULT,
        ST_DEFAULT,
    );
    let diag = sim.step();
    let out = sim.get_particles();
    assert_eq!(out.len(), 1);
    assert_eq!(out[0], p(100_100_000_000, 199_950_000_000, 2 * SCALE, -SCALE));
    assert_eq!(diag, Some(out[0]));
}

#[test]
fn reflection_low_x() {
    // x = -5, vx = 3 ends the step at x = 0 with vx = -1.5.
    let mut sim = Simulation::from_particles(
        vec![p(-5 * SCALE, 300 * SCALE, 3 * SCALE, 0)],
        DT_DEFAULT,
        ST_DEFAULT,
    );
    sim.step();
    let out = sim.get_particles();
    assert_eq!(out[0], p(0, 300 * SCALE, -1_500_000_000, 0));
}

#[test]
fn reflection_high_x() {
    let mut sim = Simulation::from_particles(
        vec![p(801 * SCALE, 300 * SCALE, 3 * SCALE, 0)],
        DT_DEFAULT,
        ST_DEFAULT,
    );
    sim.step();
    let out = sim.get_particles();
    assert_eq!(out[0], p(WORLD_X_MAX, 300 * SCALE, -1_500_000_000, 0));
}

#[test]
fn reflection_low_y() {
    let mut sim = Simulation::from_particles(
        vec![p(100 * SCALE, -5 * SCALE, 0, 3 * SCALE)],
        DT_DEFAULT,
        ST_DEFAULT,
    );
    sim.step();
    let out = sim.get_particles();
    assert_eq!(out[0], p(100 * SCALE, 0, 0, -1_500_000_000));
}

#[test]
fn reflection_high_y() {
    let mut sim = Simulation::from_particles(
        vec![p(100 * SCALE, 601 * SCALE, 0, 2 * SCALE)],
        DT_DEFAULT,
        ST_DEFAULT,
    );
    sim.step();
    let out = sim.get_particles();
    assert_eq!(out[0], p(100 * SCALE, WORLD_Y_MAX, 0, -SCALE));
}

#[test]
fn reflection_corner_fires_both_axes() {
    let mut sim = Simulation::from_particles(
        vec![p(-5 * SCALE, -5 * SCALE, 4 * SCALE, 6 * SCALE)],
        DT_DEFAULT,
        ST_DEFAULT,
    );
    sim.step();
    let out = sim.get_particles();
    assert_eq!(out[0], p(0, 0, -2 * SCALE, -3 * SCALE));
}

#[test]
fn two_particles_lennard_jones_step() {
    // Two particles at (0, 300) and (20, 300), at rest, dt = 0.05:
    // separation 20 > sigma = 10, so the pair attracts; particle 0 sits
    // on the left wall and its tiny inward kick reflects.
    let mut sim = Simulation::from_particles(
        vec![p(0, 300 * SCALE, 0, 0), p(20 * SCALE, 300 * SCALE, 0, 0)],
        DT_DEFAULT,
        ST_DEFAULT,
    );
    sim.step();
    let out = sim.get_particles();
    assert_eq!(out[0], p(0, 300 * SCALE, 454_057, 0));
    assert_eq!(out[1], p(20_000_045_405, 300 * SCALE, 908_114, 0));
}

#[test]
fn lennard_jones_velocity_delta_matches_closed_form() {
    // The per-step velocity delta of the unreflected particle must match
    // the Lennard-Jones formula evaluated in reals, up to the fixed-point
    // resolution of the kernel.
    let mut sim = Simulation::from_particles(
        vec![p(0, 300 * SCALE, 0, 0), p(20 * SCALE, 300 * SCALE, 0, 0)],
        DT_DEFAULT,
        ST_DEFAULT,
    );
    sim.step();
    let out = sim.get_particles();
    let engine_dv = out[1].vx as f64 / SCALE as f64;

    let dx = 20.0_f64;
    let distance_sq = dx * dx + 0.01;
    let r = 100.0 / distance_sq;
    let force_scalar = 48.0 * (r.powi(6) - 0.5 * r.powi(3)) / distance_sq;
    let expected_dv = -(force_scalar * dx * 0.05);

    let rel = ((engine_dv - expected_dv) / expected_dv).abs();
    assert!(rel < 1e-5, "relative error {} too large", rel);
}

#[test]
fn coincident_particles_are_softened() {
    // Two particles on the same point: the softening term keeps the force
    // law total, and a zero displacement gives a zero directional force.
    let mut sim = Simulation::from_particles(
        vec![p(50 * SCALE, 50 * SCALE, 0, 0), p(50 * SCALE, 50 * SCALE, 0, 0)],
        DT_DEFAULT,
        ST_DEFAULT,
    );
    sim.step();
    let out = sim.get_particles();
    assert_eq!(out[0], p(50 * SCALE, 50 * SCALE, 0, 0));
    assert_eq!(out[1], p(50 * SCALE, 50 * SCALE, 0, 0));
}

#[test]
fn trajectories_are_deterministic() {
    let start = vec![
        p(10 * SCALE, 20 * SCALE, 3 * SCALE, -2 * SCALE),
        p(15 * SCALE, 20 * SCALE, -1 * SCALE, SCALE),
        p(400 * SCALE, 300 * SCALE, 0, 0),
    ];
    let mut a = Simulation::from_particles(start.clone(), DT_DEFAULT, ST_DEFAULT);
    let mut b = Simulation::from_particles(start, DT_DEFAULT, ST_DEFAULT);
    for _ in 0..25 {
        a.step();
        b.step();
        assert_eq!(a.get_particles(), b.get_particles());
    }
}

#[test]
fn same_seed_same_construction() {
    let a = Simulation::new(10, 800 * SCALE, 600 * SCALE, 42);
    let b = Simulation::new(10, 800 * SCALE, 600 * SCALE, 42);
    assert_eq!(a.get_particles(), b.get_particles());
}

#[test]
fn setters_touch_only_their_scalar() {
    let mut sim = Simulation::new(4, 800 * SCALE, 600 * SCALE, 3);
    let before = sim.get_particles();
    sim.set_dt(2 * SCALE);
    sim.set_surface_tension(7 * SCALE);
    assert_eq!(sim.get_particles(), before);
    assert_eq!(sim.dt(), 2 * SCALE);
    assert_eq!(sim.surface_tension(), 7 * SCALE);
}

#[test]
fn construction_defaults_and_ranges() {
    let sim = Simulation::new(6, 800 * SCALE, 600 * SCALE, 12345);
    assert_eq!(sim.dt(), DT_DEFAULT);
    assert_eq!(sim.surface_tension(), ST_DEFAULT);
    let out = sim.get_particles();
    assert_eq!(out.len(), 6);
    for q in &out {
        assert_eq!(q.mass, SCALE);
        assert!(0 <= q.x && q.x < 800 * SCALE);
        assert!(0 <= q.y && q.y < 600 * SCALE);
        assert!(-VEL_RANGE <= q.vx && q.vx < VEL_RANGE);
        assert!(-VEL_RANGE <= q.vy && q.vy < VEL_RANGE);
    }
}

#[test]
fn degenerate_extent_places_at_origin() {
    let sim = Simulation::new(3, 0, -5 * SCALE, 9);
    for q in &sim.get_particles() {
        assert_eq!(q.x, 0);
        assert_eq!(q.y, 0);
    }
}

#[test]
fn boundary_invariant_holds_over_many_steps() {
    let mut sim = Simulation::new(8, 800 * SCALE, 600 * SCALE, 99);
    for _ in 0..200 {
        sim.step();
        for q in &sim.get_particles() {
            assert!(0 <= q.x && q.x <= WORLD_X_MAX);
            assert!(0 <= q.y && q.y <= WORLD_Y_MAX);
        }
    }
}

#[test]
fn diagnostic_reports_first_particle_after_update() {
    let mut sim = Simulation::from_particles(
        vec![
            p(100 * SCALE, 100 * SCALE, SCALE, 0),
            p(300 * SCALE, 300 * SCALE, 0, 0),
        ],
        DT_DEFAULT,
        ST_DEFAULT,
    );
    let diag = sim.step().expect("non-empty population must yield a record");
    let out = sim.get_particles();
    assert_eq!(diag, out[0]);
}
