//! Simulated bodies: rigid spheres whose mass follows from radius and
//! density, with kinematic state advanced by the integrator and accumulator.

use vstd::prelude::*;
use crate::units::{MAX_ACC, MAX_DENSITY, MAX_MID_POS, MAX_POS, MAX_RADIUS, MAX_VEL, SCALE, SCALE_SQ};

verus! {

/// The circle constant in subunits.
pub const PI_FP: i64 = 3_141_593;

/// A three-component vector of fixed-point scalars.
#[derive(Clone, Copy, PartialEq, Eq, Structural, Debug)]
pub struct Vec3 {
    pub x: i64,
    pub y: i64,
    pub z: i64,
}

impl Vec3 {
    /// The zero vector.
    pub fn zero() -> (r: Vec3)
        ensures
            r == (Vec3 { x: 0, y: 0, z: 0 }),
    {
        Vec3 { x: 0, y: 0, z: 0 }
    }
}

/// The mathematical value of a `Vec3`: the same components as unbounded
/// integers, the form every contract in the crate reasons over.
pub struct Vec3Model {
    pub x: int,
    pub y: int,
    pub z: int,
}

impl Vec3Model {
    /// Every component within `[-bound, bound]`.
    pub open spec fn in_bounds(self, bound: int) -> bool {
        &&& -bound <= self.x <= bound
        &&& -bound <= self.y <= bound
        &&& -bound <= self.z <= bound
    }

    /// The zero vector.
    pub open spec fn zero() -> Vec3Model {
        Vec3Model { x: 0, y: 0, z: 0 }
    }
}

impl View for Vec3 {
    type V = Vec3Model;

    open spec fn view(&self) -> Vec3Model {
        Vec3Model { x: self.x as int, y: self.y as int, z: self.z as int }
    }
}

/// The mass, in whole mass units, of a sphere with the given radius and
/// density (both in subunits): the volume formula `4/3 * pi * r^3 * rho`,
/// evaluated left to right with each intermediate product scaled back down
/// and rounded toward zero.
pub open spec fn mass_of(radius: int, density: int) -> int {
    let r_sq = (radius * radius) / (SCALE as int);
    let r_cu = (r_sq * radius) / (SCALE as int);
    let vol = (r_cu * density) / (SCALE as int);
    (4 * (PI_FP as int) * vol) / (3 * (SCALE_SQ as int))
}

/// A positive radius and density give a nonnegative mass.
pub proof fn lemma_mass_of_nonneg(radius: int, density: int)
    requires
        0 < radius,
        0 < density,
    ensures
        0 <= mass_of(radius, density),
{
    let r_sq = (radius * radius) / (SCALE as int);
    let r_cu = (r_sq * radius) / (SCALE as int);
    let vol = (r_cu * density) / (SCALE as int);
    assert(0 <= radius * radius) by (nonlinear_arith)
        requires
            0 < radius,
    ;
    vstd::arithmetic::div_mod::lemma_div_pos_is_pos(radius * radius, SCALE as int);
    assert(0 <= r_sq * radius) by (nonlinear_arith)
        requires
            0 <= r_sq,
            0 < radius,
    ;
    vstd::arithmetic::div_mod::lemma_div_pos_is_pos(r_sq * radius, SCALE as int);
    assert(0 <= r_cu * density) by (nonlinear_arith)
        requires
            0 <= r_cu,
            0 < density,
    ;
    vstd::arithmetic::div_mod::lemma_div_pos_is_pos(r_cu * density, SCALE as int);
    assert(0 <= 4 * (PI_FP as int) * vol) by (nonlinear_arith)
        requires
            0 <= vol,
    ;
    vstd::arithmetic::div_mod::lemma_div_pos_is_pos(4 * (PI_FP as int) * vol, 3 * (SCALE_SQ as int));
}

/// One simulated sphere. `radius` and `density` are immutable after
/// creation and determine the mass; `position` is advanced by the
/// integrator; `velocity` by both integrator and accumulator; and
/// `acceleration` always holds the value computed at the end of the
/// previous accumulation pass, for the next tick to consume.
#[derive(Clone, Copy, PartialEq, Eq, Structural, Debug)]
pub struct Body {
    pub radius: i64,
    pub density: i64,
    pub position: Vec3,
    pub velocity: Vec3,
    pub acceleration: Vec3,
}

/// The mathematical value of a `Body`: every field as unbounded integers.
pub struct BodyModel {
    pub radius: int,
    pub density: int,
    pub position: Vec3Model,
    pub velocity: Vec3Model,
    pub acceleration: Vec3Model,
}

impl View for Body {
    type V = BodyModel;

    open spec fn view(&self) -> BodyModel {
        BodyModel {
            radius: self.radius as int,
            density: self.density as int,
            position: self.position@,
            velocity: self.velocity@,
            acceleration: self.acceleration@,
        }
    }
}

impl BodyModel {
    /// The body's mass in whole mass units.
    pub open spec fn mass(self) -> int {
        mass_of(self.radius, self.density)
    }

    /// What the accumulator pass relies on for every body: positive radius
    /// and density below their caps, and a position within the wider
    /// mid-tick bound the integrator can reach.
    pub open spec fn shape_ok(self) -> bool {
        &&& 0 < self.radius <= MAX_RADIUS
        &&& 0 < self.density <= MAX_DENSITY
        &&& self.position.in_bounds(MAX_MID_POS as int)
    }

    /// Bounds under which every arithmetic step of a tick stays exact.
    pub open spec fn ok(self) -> bool {
        &&& self.shape_ok()
        &&& self.position.in_bounds(MAX_POS as int)
        &&& self.velocity.in_bounds(MAX_VEL as int)
        &&& self.acceleration.in_bounds(MAX_ACC as int)
    }
}

impl Body {
    /// Bounds under which every arithmetic step of a tick stays exact:
    /// positive radius and density below their caps, a mass below its cap,
    /// and kinematic components below theirs.
    pub open spec fn wf(self) -> bool {
        self@.ok()
    }

    /// The body's mass in whole mass units.
    pub fn mass(&self) -> (m: i64)
        requires
            0 < self.radius <= MAX_RADIUS,
            0 < self.density <= MAX_DENSITY,
        ensures
            m as int == mass_of(self.radius as int, self.density as int),
            0 <= m,
    {
        proof {
            assert((self.radius as int) * (self.radius as int)
                <= 25_000_000_000_000_000_000int) by (nonlinear_arith)
                requires
                    0 < self.radius <= MAX_RADIUS,
            ;
        }
        let r_sq: u128 = (self.radius as u128) * (self.radius as u128) / (SCALE as u128);
        proof {
            vstd::arithmetic::div_mod::lemma_div_is_ordered(
                (self.radius as int) * (self.radius as int),
                25_000_000_000_000_000_000int,
                SCALE as int,
            );
        }
        proof {
            assert(r_sq * (self.radius as int) <= 125_000_000_000_000_000_000_000int)
                by (nonlinear_arith)
                requires
                    0 <= r_sq <= 25_000_000_000_000i128,
                    0 < self.radius <= MAX_RADIUS,
            ;
        }
        let r_cu: u128 = r_sq * (self.radius as u128) / (SCALE as u128);
        proof {
            assert(r_cu * (self.density as int) <= 1_250_000_000_000_000_000_000_000int)
                by (nonlinear_arith)
                requires
                    0 <= r_cu <= 125_000_000_000_000_000i128,
                    0 < self.density <= MAX_DENSITY,
            ;
        }
        let vol: u128 = r_cu * (self.density as u128) / (SCALE as u128);
        proof {
            assert(4 * (PI_FP as int) * vol <= 15_707_965_000_000_000_000_000_000_000int)
                by (nonlinear_arith)
                requires
                    0 <= vol <= 1_250_000_000_000_000_000i128,
            ;
        }
        let m: u128 = 4 * (PI_FP as u128) * vol / (3 * (SCALE_SQ as u128));
        proof {
            vstd::arithmetic::div_mod::lemma_div_is_ordered(
                4 * (PI_FP as int) * (vol as int),
                15_707_965_000_000_000_000_000_000_000int,
                3 * (SCALE_SQ as int),
            );
        }
        m as i64
    }

    /// Whether a body with these fields would satisfy `wf`: the
    /// body-creation precondition, decidable at run time.
    pub open spec fn creation_ok(radius: i64, density: i64, position: Vec3, velocity: Vec3) -> bool {
        &&& 0 < radius <= MAX_RADIUS
        &&& 0 < density <= MAX_DENSITY
        &&& position@.in_bounds(MAX_POS as int)
        &&& velocity@.in_bounds(MAX_VEL as int)
    }

    /// Creates a body with zero initial acceleration, rejecting any
    /// parameters that would break the bounds the simulation relies on
    /// (in particular a non-positive radius or density, which would give a
    /// non-positive mass).
    pub fn new(radius: i64, density: i64, position: Vec3, velocity: Vec3) -> (r: Option<Body>)
        ensures
            r is Some <==> Self::creation_ok(radius, density, position, velocity),
            r is Some ==> r == Some(
                Body { radius, density, position, velocity, acceleration: Vec3 { x: 0, y: 0, z: 0 } },
            ),
            r is Some ==> r.unwrap().wf(),
    {
        if radius <= 0 || radius > MAX_RADIUS || density <= 0 || density > MAX_DENSITY {
            return None;
        }
        let probe = Body {
            radius,
            density,
            position,
            velocity,
            acceleration: Vec3 { x: 0, y: 0, z: 0 },
        };
        if position.x < -MAX_POS || position.x > MAX_POS || position.y < -MAX_POS
            || position.y > MAX_POS || position.z < -MAX_POS || position.z > MAX_POS {
            return None;
        }
        if velocity.x < -MAX_VEL || velocity.x > MAX_VEL || velocity.y < -MAX_VEL
            || velocity.y > MAX_VEL || velocity.z < -MAX_VEL || velocity.z > MAX_VEL {
            return None;
        }
        Some(probe)
    }

    /// Whether this body satisfies every bound in `wf`, decided at run time.
    pub fn is_well_formed(&self) -> (b: bool)
        ensures
            b == self.wf(),
    {
        if self.radius <= 0 || self.radius > MAX_RADIUS || self.density <= 0
            || self.density > MAX_DENSITY {
            return false;
        }
        self.position.x >= -MAX_POS && self.position.x <= MAX_POS
            && self.position.y >= -MAX_POS && self.position.y <= MAX_POS
            && self.position.z >= -MAX_POS && self.position.z <= MAX_POS
            && self.velocity.x >= -MAX_VEL && self.velocity.x <= MAX_VEL
            && self.velocity.y >= -MAX_VEL && self.velocity.y <= MAX_VEL
            && self.velocity.z >= -MAX_VEL && self.velocity.z <= MAX_VEL
            && self.acceleration.x >= -MAX_ACC && self.acceleration.x <= MAX_ACC
            && self.acceleration.y >= -MAX_ACC && self.acceleration.y <= MAX_ACC
            && self.acceleration.z >= -MAX_ACC && self.acceleration.z <= MAX_ACC
    }
}

} // verus!
