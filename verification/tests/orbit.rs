use nbody_sim::body::{Body, Vec3};
use nbody_sim::world::{SimConfig, World};

/// A two-body circular orbit: a heavy central body and a near-massless
/// satellite placed at orbital radius with the tangential speed
/// `sqrt(acceleration * radius)`. After one full period the satellite
/// should come back close to where it started.
#[test]
fn circular_orbit_returns_near_its_start_after_one_period() {
    let cfg = SimConfig { gravity: 1_000_000, size_scale: 1_000_000, distance_scale: 1_000_000 };
    assert!(cfg.is_well_formed());

    // Central body: radius 80, density 8 -> mass 17_157_214 units.
    let central = Body::new(
        80_000_000,
        8_000_000,
        Vec3 { x: 0, y: 0, z: 0 },
        Vec3 { x: 0, y: 0, z: 0 },
    )
    .unwrap();
    assert_eq!(central.mass(), 17_157_286);

    // Satellite: radius 5, density 0.01 -> mass 5, so small that every
    // half-step it would give the central body truncates to zero and the
    // central body stays put while the satellite feels the full pull.
    // At radius 100 the per-unit-mass force scalar is 1e18 / 1e16 = 100,
    // so the satellite's acceleration is 100 * 17_157_286 subunits
    // (about 1715.7 units) and the continuum circular speed would be
    // sqrt(1715.7286 * 100) = 414.21 units. The force scalar is floored,
    // so over a revolution the pull averages slightly below its value at
    // the launch radius; the closed orbit of the fixed-point system sits
    // about 0.7 percent slower.
    let radius: i64 = 100_000_000;
    let speed: i64 = 411_400_000;
    let sat = Body::new(
        5_000_000,
        10_000,
        Vec3 { x: radius, y: 0, z: 0 },
        Vec3 { x: 0, y: speed, z: 0 },
    )
    .unwrap();
    assert_eq!(sat.mass(), 5);

    let mut w = World::new();
    assert!(w.add_body(central));
    assert!(w.add_body(sat));
    assert!(w.is_well_formed());
    // The admission condition is position-independent, so one check covers
    // the whole run.
    assert!(w.forces_in_bounds(&cfg));

    // One period: 2 * pi * 100 / 411.4 = 1.5273 time units; with
    // dt = 0.001 that is 1528 ticks.
    let dt: i64 = 1_000;
    let steps = 1528;
    for _ in 0..steps {
        assert!(w.is_well_formed());
        w.tick(&cfg, dt);
    }

    let end = w.get_body(1).position;
    let dx = (end.x - radius) as i128;
    let dy = end.y as i128;
    let dz = end.z as i128;
    let drift_sq = dx * dx + dy * dy + dz * dz;
    // Allow a few units of drift on the 100-unit orbit (the force
    // resolution is about 1% at this radius): 5 units = 5e6 subunits.
    let tol: i128 = 5_000_000;
    assert!(
        drift_sq <= tol * tol,
        "satellite ended {} subunits off its start (allowed {})",
        (drift_sq as f64).sqrt(),
        tol
    );
    // The central body must not have wandered.
    let c = w.get_body(0).position;
    assert_eq!((c.x, c.y, c.z), (0, 0, 0));
}
