use nbody_sim::body::{Body, Vec3};
use nbody_sim::timescale::GameSpeed;
use nbody_sim::world::{SimConfig, World};

fn test_config() -> SimConfig {
    // Unit gravity and unit scales: the force numerator is 1e30 and the
    // per-unit-mass force at squared distance q subunits^2 is 1e18 / q.
    SimConfig { gravity: 1_000_000, size_scale: 1_000_000, distance_scale: 1_000_000 }
}

fn body_at(x: i64, y: i64, z: i64, radius: i64, density: i64) -> Body {
    Body::new(radius, density, Vec3 { x, y, z }, Vec3 { x: 0, y: 0, z: 0 }).unwrap()
}

#[test]
fn mass_follows_the_volume_formula_exactly() {
    // 4/3 * pi * 250^3 * 2 in fixed point comes to 130_899_708 mass units.
    let b = body_at(0, 0, 0, 250_000_000, 2_000_000);
    assert_eq!(b.mass(), 130_899_708);
    // 4/3 * pi * 2500^3 * 2: the spawn-sized body.
    let big = body_at(0, 0, 0, 2_500_000_000, 2_000_000);
    assert_eq!(big.mass(), 130_899_708_333);
    // 4/3 * pi * 1^3 * 1 truncates to 4.
    let small = body_at(0, 0, 0, 1_000_000, 1_000_000);
    assert_eq!(small.mass(), 4);
}

#[test]
fn body_creation_rejects_invalid_parameters() {
    let pos = Vec3 { x: 0, y: 0, z: 0 };
    let vel = Vec3 { x: 0, y: 0, z: 0 };
    assert!(Body::new(0, 2_000_000, pos, vel).is_none());
    assert!(Body::new(-5, 2_000_000, pos, vel).is_none());
    assert!(Body::new(1_000_000, 0, pos, vel).is_none());
    assert!(Body::new(1_000_000, -1, pos, vel).is_none());
    assert!(Body::new(5_000_000_001, 2_000_000, pos, vel).is_none());
    assert!(Body::new(1_000_000, 10_000_001, pos, vel).is_none());
    // The heaviest body the radius and density caps allow is accepted;
    // whether a configuration admits it is the accumulator's own check.
    assert!(Body::new(5_000_000_000, 10_000_000, pos, vel).is_some());
    // A position outside the world bound is rejected.
    let far = Vec3 { x: 1_000_000_000_000_001, y: 0, z: 0 };
    assert!(Body::new(1_000_000, 1_000_000, far, vel).is_none());
    // A valid body starts with zero acceleration.
    let b = Body::new(1_000_000, 1_000_000, pos, vel).unwrap();
    assert_eq!(b.acceleration, Vec3 { x: 0, y: 0, z: 0 });
}

#[test]
fn velocity_verlet_advances_positions_exactly() {
    let mut w = World::new();
    let mut b = body_at(0, 0, 0, 1_000_000, 1_000_000);
    b.velocity = Vec3 { x: 1_000, y: -2_000, z: 3_000_000 };
    b.acceleration = Vec3 { x: 2_000_000, y: 0, z: -4_000_000 };
    assert!(w.add_body(b));
    w.velocity_verlet(1_000_000);
    let moved = w.get_body(0);
    // x: 1_000 * 1e6 / 1e6 + 2e6 * 1e6 * 1e6 / 2e12 = 1_000 + 1_000_000.
    assert_eq!(moved.position, Vec3 { x: 1_001_000, y: -2_000, z: 1_000_000 });
    // The integrator touches neither velocity nor acceleration.
    assert_eq!(moved.velocity, b.velocity);
    assert_eq!(moved.acceleration, b.acceleration);
}

#[test]
fn zero_duration_tick_changes_no_position_or_velocity() {
    let cfg = test_config();
    let mut w = World::new();
    let mut b0 = body_at(0, 0, 0, 250_000_000, 2_000_000);
    b0.velocity = Vec3 { x: 5_000, y: 6_000, z: -7_000 };
    b0.acceleration = Vec3 { x: 123, y: -456, z: 789 };
    let mut b1 = body_at(700_000_000, 0, 0, 250_000_000, 2_000_000);
    b1.velocity = Vec3 { x: -1, y: -2, z: -3 };
    assert!(w.add_body(b0));
    assert!(w.add_body(b1));
    assert!(w.is_well_formed());
    assert!(w.forces_in_bounds(&cfg));
    w.tick(&cfg, 0);
    for (k, before) in [b0, b1].iter().enumerate() {
        let after = w.get_body(k);
        assert_eq!(after.position, before.position);
        assert_eq!(after.velocity, before.velocity);
    }
    // A second zero-duration tick is a complete fixed point: the stored
    // accelerations were already recomputed from the same positions.
    let mid0 = w.get_body(0);
    let mid1 = w.get_body(1);
    w.tick(&cfg, 0);
    assert_eq!(w.get_body(0), mid0);
    assert_eq!(w.get_body(1), mid1);
}

#[test]
fn pause_freezes_the_world_and_resume_restores_speed() {
    let cfg = test_config();
    let mut w = World::new();
    let mut moving = body_at(0, 0, 0, 250_000_000, 2_000_000);
    moving.velocity = Vec3 { x: 1_000_000, y: 0, z: 0 };
    assert!(w.add_body(moving));
    assert!(w.add_body(body_at(700_000_000, 0, 0, 250_000_000, 2_000_000)));

    let mut gs = GameSpeed::new();
    gs.change_speed(true, false, false, false, 500_000);
    let running = gs.speed;
    gs.toggle_pause();
    assert_eq!(gs.speed, 0);

    assert!(w.is_well_formed() && w.forces_in_bounds(&cfg));
    let before: Vec<Body> = (0..2).map(|k| w.get_body(k)).collect();
    for _ in 0..3 {
        let dt = gs.effective_dt(16_667);
        assert_eq!(dt, 0);
        w.tick(&cfg, dt);
    }
    for (k, b) in before.iter().enumerate() {
        let after = w.get_body(k);
        assert_eq!(after.position, b.position);
        assert_eq!(after.velocity, b.velocity);
    }

    gs.toggle_pause();
    assert_eq!(gs.speed, running);
    // With the speed restored, ticks move the world again.
    let dt = gs.effective_dt(16_667);
    assert_ne!(dt, 0);
    w.tick(&cfg, dt);
    assert_ne!(w.get_body(0).position, before[0].position);
}

#[test]
fn coincident_bodies_feel_no_force() {
    let cfg = test_config();
    let mut w = World::new();
    let b = body_at(10_000_000, 20_000_000, 30_000_000, 250_000_000, 2_000_000);
    assert!(w.add_body(b));
    assert!(w.add_body(b));
    assert!(w.is_well_formed() && w.forces_in_bounds(&cfg));
    w.tick(&cfg, 1_000_000);
    for k in 0..2 {
        let after = w.get_body(k);
        assert_eq!(after.position, b.position);
        assert_eq!(after.velocity, Vec3 { x: 0, y: 0, z: 0 });
        assert_eq!(after.acceleration, Vec3 { x: 0, y: 0, z: 0 });
    }
}

#[test]
fn colliding_pair_gets_zero_force_for_the_tick() {
    let cfg = test_config();
    let mut w = World::new();
    // Contact threshold: (250 + 250) * 1.0 = 500 units; separation 100.
    assert!(w.add_body(body_at(0, 0, 0, 250_000_000, 2_000_000)));
    assert!(w.add_body(body_at(100_000_000, 0, 0, 250_000_000, 2_000_000)));
    assert!(w.is_well_formed() && w.forces_in_bounds(&cfg));
    w.tick(&cfg, 1_000_000);
    for k in 0..2 {
        let after = w.get_body(k);
        assert_eq!(after.velocity, Vec3 { x: 0, y: 0, z: 0 });
        assert_eq!(after.acceleration, Vec3 { x: 0, y: 0, z: 0 });
    }
}

#[test]
fn exact_contact_boundary_applies_the_plain_force_law() {
    let cfg = test_config();
    let mut w = World::new();
    // Separation exactly at the 500-unit contact threshold.
    assert!(w.add_body(body_at(0, 0, 0, 250_000_000, 2_000_000)));
    assert!(w.add_body(body_at(500_000_000, 0, 0, 250_000_000, 2_000_000)));
    assert!(w.is_well_formed() && w.forces_in_bounds(&cfg));
    w.tick(&cfg, 1_000_000);
    // f = 1e18 / 2.5e17 = 4; each acceleration is 4 * 130_899_708.
    let a0 = w.get_body(0);
    let a1 = w.get_body(1);
    assert_eq!(a0.acceleration, Vec3 { x: 523_598_832, y: 0, z: 0 });
    assert_eq!(a1.acceleration, Vec3 { x: -523_598_832, y: 0, z: 0 });
    // Half-step: 523_598_832 * 1e6 / 2e6.
    assert_eq!(a0.velocity, Vec3 { x: 261_799_416, y: 0, z: 0 });
    assert_eq!(a1.velocity, Vec3 { x: -261_799_416, y: 0, z: 0 });
}

#[test]
fn small_distant_bodies_feel_the_uncapped_law() {
    let cfg = test_config();
    let mut w = World::new();
    // Two one-unit spheres of density 1.0, ten units apart: the force
    // scalar is 1e18 / 1e14 = 10_000, each mass is 4, and each stored
    // acceleration component along the axis is exactly 40_000 subunits —
    // the plain law's value, with nothing silently reduced.
    assert!(w.add_body(body_at(0, 0, 0, 1_000_000, 1_000_000)));
    assert!(w.add_body(body_at(10_000_000, 0, 0, 1_000_000, 1_000_000)));
    assert!(w.is_well_formed() && w.forces_in_bounds(&cfg));
    w.tick(&cfg, 0);
    assert_eq!(w.get_body(0).acceleration, Vec3 { x: 40_000, y: 0, z: 0 });
    assert_eq!(w.get_body(1).acceleration, Vec3 { x: -40_000, y: 0, z: 0 });
}

#[test]
fn newton_third_law_holds_exactly_for_unequal_masses() {
    let cfg = test_config();
    let mut w = World::new();
    let heavy = body_at(0, 0, 0, 250_000_000, 2_000_000);
    let light = body_at(600_000_000, 0, 0, 100_000_000, 3_000_000);
    assert!(w.add_body(heavy));
    assert!(w.add_body(light));
    let m0 = heavy.mass() as i128;
    let m1 = light.mass() as i128;
    assert_eq!(m0, 130_899_708);
    assert_eq!(m1, 12_566_372);
    assert!(w.is_well_formed() && w.forces_in_bounds(&cfg));
    w.tick(&cfg, 1_000_000);
    let a0 = w.get_body(0).acceleration;
    let a1 = w.get_body(1).acceleration;
    assert_ne!(a0.x, 0);
    assert_eq!(a0.x as i128 * m0, -(a1.x as i128 * m1));
    assert_eq!(a0.y as i128 * m0, -(a1.y as i128 * m1));
    assert_eq!(a0.z as i128 * m0, -(a1.z as i128 * m1));
}

#[test]
fn positions_snapshot_matches_the_bodies() {
    let mut w = World::new();
    assert!(w.add_body(body_at(1, 2, 3, 1_000_000, 1_000_000)));
    assert!(w.add_body(body_at(-4, -5, -6, 1_000_000, 1_000_000)));
    let ps = w.positions();
    assert_eq!(ps.len(), 2);
    assert_eq!(ps[0], Vec3 { x: 1, y: 2, z: 3 });
    assert_eq!(ps[1], Vec3 { x: -4, y: -5, z: -6 });
}

#[test]
fn world_refuses_more_than_its_body_cap() {
    let mut w = World::new();
    let b = body_at(0, 0, 0, 1_000_000, 1_000_000);
    for _ in 0..1000 {
        assert!(w.add_body(b));
    }
    assert!(!w.add_body(b));
    assert_eq!(w.len(), 1000);
}

#[test]
fn admission_check_rejects_an_overstrong_configuration() {
    // A gravity so strong that a one-unit body could be accelerated past
    // the acceleration bound at near-contact range is refused for that
    // body, though the configuration itself is well formed.
    let strong = SimConfig { gravity: 1_000_000_000_000, size_scale: 1, distance_scale: 1_000_000 };
    assert!(strong.is_well_formed());
    let mut w = World::new();
    assert!(w.add_body(body_at(0, 0, 0, 1_000_000, 1_000_000)));
    assert!(w.is_well_formed());
    assert!(!w.forces_in_bounds(&strong));
    // The everyday configuration admits the same body.
    assert!(w.forces_in_bounds(&test_config()));
}

#[test]
fn config_validation_accepts_and_rejects_at_the_caps() {
    assert!(test_config().is_well_formed());
    let zero_g = SimConfig { gravity: 0, size_scale: 1, distance_scale: 1 };
    assert!(zero_g.is_well_formed());
    let bad_scale = SimConfig { gravity: 1, size_scale: 0, distance_scale: 1 };
    assert!(!bad_scale.is_well_formed());
    let negative = SimConfig { gravity: -1, size_scale: 1, distance_scale: 1 };
    assert!(!negative.is_well_formed());
    // 1e6 * (1e6)^2 * (1e6)^2 is exactly the force-product cap.
    let at_cap = SimConfig {
        gravity: 1_000_000,
        size_scale: 1_000_000,
        distance_scale: 1_000_000,
    };
    assert!(at_cap.is_well_formed());
    let over_cap = SimConfig {
        gravity: 1_000_001,
        size_scale: 1_000_000,
        distance_scale: 1_000_000,
    };
    assert!(!over_cap.is_well_formed());
}
