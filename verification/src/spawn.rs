//! Spawning a body at a random position, as the user trigger does.

use vstd::prelude::*;
use rand::Rng;
use crate::body::{Body, Vec3};

verus! {

/// Radius given to every spawned body, in subunits: 2500 units.
pub const SPAWN_RADIUS: i64 = 2_500_000_000;

/// Density given to every spawned body, in subunits.
pub const SPAWN_DENSITY: i64 = 2_000_000;

/// Half-width of the cube spawned bodies land in, in subunits.
pub const SPAWN_RANGE: i64 = 1_000_000_000;

/// Relies on rand's `thread_rng` and `Rng::gen_range` (rand 0.8): for
/// `lo < hi` the call returns a value drawn uniformly from `[lo, hi)`; on
/// an empty range it panics, which the precondition rules out. Nothing
/// about which value comes back is assumed.
#[verifier::external_body]
fn random_in_range(lo: i64, hi: i64) -> (r: i64)
    requires
        lo < hi,
    ensures
        lo <= r < hi,
{
    rand::thread_rng().gen_range(lo..hi)
}

/// A new body at a position drawn from the spawn cube (half-open in each
/// coordinate, as the draw is), with the fixed spawn radius and density,
/// zero velocity and zero acceleration.
pub fn spawn_random_body() -> (b: Body)
    ensures
        b.radius == SPAWN_RADIUS,
        b.density == SPAWN_DENSITY,
        -SPAWN_RANGE <= b.position.x < SPAWN_RANGE,
        -SPAWN_RANGE <= b.position.y < SPAWN_RANGE,
        -SPAWN_RANGE <= b.position.z < SPAWN_RANGE,
        b.velocity == (Vec3 { x: 0, y: 0, z: 0 }),
        b.acceleration == (Vec3 { x: 0, y: 0, z: 0 }),
        b.wf(),
{
    let x = random_in_range(-SPAWN_RANGE, SPAWN_RANGE);
    let y = random_in_range(-SPAWN_RANGE, SPAWN_RANGE);
    let z = random_in_range(-SPAWN_RANGE, SPAWN_RANGE);
    let position = Vec3 { x, y, z };
    match Body::new(SPAWN_RADIUS, SPAWN_DENSITY, position, Vec3::zero()) {
        Some(b) => b,
        None => vstd::pervasive::unreached(),
    }
}

} // verus!
