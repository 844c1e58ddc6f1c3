use nbody_sim::spawn::{spawn_random_body, SPAWN_DENSITY, SPAWN_RADIUS, SPAWN_RANGE};
use nbody_sim::world::{SimConfig, World};

#[test]
fn spawned_bodies_land_inside_the_spawn_cube() {
    for _ in 0..32 {
        let b = spawn_random_body();
        assert_eq!(b.radius, SPAWN_RADIUS);
        assert_eq!(b.density, SPAWN_DENSITY);
        assert!(b.position.x >= -SPAWN_RANGE && b.position.x < SPAWN_RANGE);
        assert!(b.position.y >= -SPAWN_RANGE && b.position.y < SPAWN_RANGE);
        assert!(b.position.z >= -SPAWN_RANGE && b.position.z < SPAWN_RANGE);
        assert_eq!(b.velocity.x, 0);
        assert_eq!(b.velocity.y, 0);
        assert_eq!(b.velocity.z, 0);
        assert_eq!(b.acceleration.x, 0);
        assert_eq!(b.acceleration.y, 0);
        assert_eq!(b.acceleration.z, 0);
        assert!(b.is_well_formed());
    }
}

#[test]
fn spawned_positions_vary() {
    // A run of draws should not all land on one point; each coordinate is
    // drawn from two billion subunit values.
    let first = spawn_random_body().position;
    let mut saw_different = false;
    for _ in 0..16 {
        let p = spawn_random_body().position;
        if p != first {
            saw_different = true;
        }
    }
    assert!(saw_different);
}

#[test]
fn spawned_body_has_the_full_spawn_mass() {
    // 4/3 * pi * 2500^3 * 2 in fixed point comes to 130_899_708_333.
    assert_eq!(spawn_random_body().mass(), 130_899_708_333);
}

#[test]
fn spawned_body_joins_a_world() {
    let cfg = SimConfig { gravity: 1_000_000, size_scale: 1_000_000, distance_scale: 1_000_000 };
    let mut w = World::new();
    assert!(w.add_body(spawn_random_body()));
    assert!(w.is_well_formed());
    assert!(w.forces_in_bounds(&cfg));
}
