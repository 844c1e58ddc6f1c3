//! The body store and the two-phase tick: a velocity-Verlet position pass
//! followed by a pairwise force accumulation pass.

use vstd::prelude::*;
use vstd::pervasive::VecAdditionalExecFns;
use crate::body::{mass_of, Body, BodyModel, Vec3, Vec3Model};
use crate::sqrt::{isqrt, lemma_sqrt_floor_bounds, sqrt_floor, MAX_NORM_SQ};
use crate::units::{
    div_tz, lemma_ceil_div_covers, lemma_div_mul_le_cap, lemma_div_tz_bound,
    lemma_div_tz_le_factor, lemma_mul_le_cap_iff, mul_div_tz, wide_div_tz, MAX_ACC, MAX_BODIES,
    MAX_DENSITY, MAX_DT, MAX_FORCE_PRODUCT, MAX_GRAVITY, MAX_MID_POS, MAX_MID_VEL, MAX_POS,
    MAX_RADIUS, MAX_SCALE_FACTOR, MAX_VEL, SCALE, SCALE_SQ, VEL_STEP,
};

verus! {

/// The fixed conversion constants a scene supplies once: the gravity
/// constant and the two presentation scale factors the force formula
/// combines. All three are fixed-point subunit counts; pick units in which
/// their product stays within `MAX_FORCE_PRODUCT`.
pub struct SimConfig {
    pub gravity: i64,
    pub size_scale: i64,
    pub distance_scale: i64,
}

impl SimConfig {
    /// The numerator of the pairwise force formula:
    /// `gravity * (size_scale * distance_scale)^2`.
    pub open spec fn force_product(self) -> int {
        self.gravity * self.size_scale * self.size_scale * self.distance_scale
            * self.distance_scale
    }

    /// Bounds under which the force computation stays exact: a nonnegative
    /// gravity constant, positive scale factors, and a capped product.
    pub open spec fn wf(self) -> bool {
        &&& 0 <= self.gravity <= MAX_GRAVITY
        &&& 1 <= self.size_scale <= MAX_SCALE_FACTOR
        &&& 1 <= self.distance_scale <= MAX_SCALE_FACTOR
        &&& self.force_product() <= MAX_FORCE_PRODUCT
    }

    /// Whether this configuration satisfies every bound in `wf`, decided
    /// at run time.
    pub fn is_well_formed(&self) -> (b: bool)
        ensures
            b == self.wf(),
    {
        if self.gravity < 0 || self.gravity > MAX_GRAVITY || self.size_scale < 1
            || self.size_scale > MAX_SCALE_FACTOR || self.distance_scale < 1
            || self.distance_scale > MAX_SCALE_FACTOR {
            return false;
        }
        let g = self.gravity;
        let ss = self.size_scale;
        let ds = self.distance_scale;
        let p1 = match mul_within_cap(g as u128, ss) {
            Some(p) => p,
            None => {
                proof {
                    assert((g as int) * (ss as int) * (ss as int) * (ds as int) * (ds as int)
                        > MAX_FORCE_PRODUCT) by (nonlinear_arith)
                        requires
                            (g as int) * (ss as int) > MAX_FORCE_PRODUCT,
                            1 <= ss,
                            1 <= ds,
                    ;
                }
                return false;
            },
        };
        let p2 = match mul_within_cap(p1, ss) {
            Some(p) => p,
            None => {
                proof {
                    assert((g as int) * (ss as int) * (ss as int) * (ds as int) * (ds as int)
                        > MAX_FORCE_PRODUCT) by (nonlinear_arith)
                        requires
                            (g as int) * (ss as int) * (ss as int) > MAX_FORCE_PRODUCT,
                            1 <= ds,
                    ;
                }
                return false;
            },
        };
        let p3 = match mul_within_cap(p2, ds) {
            Some(p) => p,
            None => {
                proof {
                    assert((g as int) * (ss as int) * (ss as int) * (ds as int) * (ds as int)
                        > MAX_FORCE_PRODUCT) by (nonlinear_arith)
                        requires
                            (g as int) * (ss as int) * (ss as int) * (ds as int)
                                > MAX_FORCE_PRODUCT,
                            1 <= ds,
                    ;
                }
                return false;
            },
        };
        match mul_within_cap(p3, ds) {
            Some(_) => true,
            None => false,
        }
    }
}

/// The product `q * f` when it stays within `MAX_FORCE_PRODUCT`, and
/// `None` when it would exceed it.
fn mul_within_cap(q: u128, f: i64) -> (r: Option<u128>)
    requires
        1 <= f,
        q <= MAX_FORCE_PRODUCT,
    ensures
        r is Some <==> q * f <= MAX_FORCE_PRODUCT,
        r is Some ==> r.unwrap() == q * f,
{
    proof {
        lemma_mul_le_cap_iff(q as int, f as int, MAX_FORCE_PRODUCT as int);
    }
    if q > MAX_FORCE_PRODUCT / (f as u128) {
        None
    } else {
        Some(q * (f as u128))
    }
}

/// The squared distance between two positions.
pub open spec fn dist_sq_of(a: Vec3Model, b: Vec3Model) -> int {
    let dx = b.x - a.x;
    let dy = b.y - a.y;
    let dz = b.z - a.z;
    dx * dx + dy * dy + dz * dz
}

/// Squared distance between two bounded positions, exactly.
fn dist_sq(a: &Vec3, b: &Vec3) -> (d: u128)
    requires
        a@.in_bounds(MAX_MID_POS as int),
        b@.in_bounds(MAX_MID_POS as int),
    ensures
        d as int == dist_sq_of(a@, b@),
        d <= MAX_NORM_SQ,
{
    let dx: i64 = b.x - a.x;
    let dy: i64 = b.y - a.y;
    let dz: i64 = b.z - a.z;
    proof {
        assert(0 <= (dx as int) * (dx as int)
            <= 4_000_000_000_000_000_000_000_000_000_000_000_000int
            && 0 <= (dy as int) * (dy as int)
                <= 4_000_000_000_000_000_000_000_000_000_000_000_000int
            && 0 <= (dz as int) * (dz as int)
                <= 4_000_000_000_000_000_000_000_000_000_000_000_000int)
            by (nonlinear_arith)
            requires
                -2_000_000_000_000_000_000i64 <= dx <= 2_000_000_000_000_000_000i64,
                -2_000_000_000_000_000_000i64 <= dy <= 2_000_000_000_000_000_000i64,
                -2_000_000_000_000_000_000i64 <= dz <= 2_000_000_000_000_000_000i64,
        ;
    }
    let sx: u128 = ((dx as i128) * (dx as i128)) as u128;
    let sy: u128 = ((dy as i128) * (dy as i128)) as u128;
    let sz: u128 = ((dz as i128) * (dz as i128)) as u128;
    sx + sy + sz
}

/// The contact threshold of a pair: the sum of the two radii scaled by the
/// size factor, in subunits.
pub open spec fn contact_of(r1: int, r2: int, size_scale: int) -> int {
    ((r1 + r2) * size_scale) / (SCALE as int)
}

/// Contact threshold, exactly.
fn contact_distance(r1: i64, r2: i64, size_scale: i64) -> (c: i64)
    requires
        0 < r1 <= MAX_RADIUS,
        0 < r2 <= MAX_RADIUS,
        1 <= size_scale <= MAX_SCALE_FACTOR,
    ensures
        c as int == contact_of(r1 as int, r2 as int, size_scale as int),
        0 <= c <= 10_000_000_000_000,
{
    let sum: i64 = r1 + r2;
    proof {
        assert(0 <= (sum as int) * (size_scale as int) <= 10_000_000_000_000_000_000int)
            by (nonlinear_arith)
            requires
                0 < sum <= 10_000_000_000i64,
                1 <= size_scale <= MAX_SCALE_FACTOR,
        ;
        vstd::arithmetic::div_mod::lemma_div_is_ordered(
            (sum as int) * (size_scale as int),
            10_000_000_000_000_000_000int,
            SCALE as int,
        );
        vstd::arithmetic::div_mod::lemma_div_pos_is_pos(
            (sum as int) * (size_scale as int),
            SCALE as int,
        );
    }
    let p: u128 = (sum as u128) * (size_scale as u128);
    (p / (SCALE as u128)) as i64
}

/// The per-unit-mass force scalar at squared distance `d_sq`: the
/// configuration's force numerator brought into subunits and divided by the
/// squared distance, uncapped; and zero at a zero separation (where the
/// direction is the zero vector anyway).
pub open spec fn force_scalar_of(cfg: SimConfig, d_sq: int) -> int {
    if d_sq <= 0 {
        0
    } else {
        cfg.force_product() / (SCALE_SQ as int) / d_sq
    }
}

/// The configuration's force numerator, exactly.
fn force_product_value(cfg: &SimConfig) -> (p: u128)
    requires
        cfg.wf(),
    ensures
        p as int == cfg.force_product(),
        p <= MAX_FORCE_PRODUCT,
{
    let g = cfg.gravity;
    let ss = cfg.size_scale;
    let ds = cfg.distance_scale;
    proof {
        assert(0 <= (g as int) * (ss as int) <= MAX_FORCE_PRODUCT
            && 0 <= (g as int) * (ss as int) * (ss as int) <= MAX_FORCE_PRODUCT
            && 0 <= (g as int) * (ss as int) * (ss as int) * (ds as int) <= MAX_FORCE_PRODUCT
            && 0 <= (g as int) * (ss as int) * (ss as int) * (ds as int) * (ds as int)
                <= MAX_FORCE_PRODUCT) by (nonlinear_arith)
            requires
                0 <= g,
                1 <= ss,
                1 <= ds,
                (g as int) * (ss as int) * (ss as int) * (ds as int) * (ds as int)
                    <= MAX_FORCE_PRODUCT,
        ;
    }
    (g as u128) * (ss as u128) * (ss as u128) * (ds as u128) * (ds as u128)
}

/// Whether the configuration admits this body, decided at run time.
fn body_force_within(cfg: &SimConfig, b: &Body) -> (r: bool)
    requires
        cfg.wf(),
        0 < b.radius <= MAX_RADIUS,
        0 < b.density <= MAX_DENSITY,
    ensures
        r == body_force_ok(*cfg, b@),
{
    let fp: u128 = force_product_value(cfg);
    proof {
        assert(0 <= (b.radius as int) * (cfg.size_scale as int)
            <= 5_000_000_000_000_000_000int) by (nonlinear_arith)
            requires
                0 < b.radius <= MAX_RADIUS,
                1 <= cfg.size_scale <= MAX_SCALE_FACTOR,
        ;
        vstd::arithmetic::div_mod::lemma_div_is_ordered(
            (b.radius as int) * (cfg.size_scale as int),
            5_000_000_000_000_000_000int,
            SCALE as int,
        );
        vstd::arithmetic::div_mod::lemma_div_pos_is_pos(
            (b.radius as int) * (cfg.size_scale as int),
            SCALE as int,
        );
    }
    let c: u128 = (b.radius as u128) * (cfg.size_scale as u128) / (SCALE as u128);
    let mut g: u128 = 1;
    if c >= 1 {
        proof {
            assert((c as int) * (c as int) <= 25_000_000_000_000_000_000_000_000int)
                by (nonlinear_arith)
                requires
                    0 <= c <= 5_000_000_000_000u128,
            ;
        }
        g = c * c;
        proof {
            assert(1 <= g) by (nonlinear_arith)
                requires
                    1 <= c,
                    g == c * c,
            ;
        }
    }
    let ceil: u128 = (fp + (g - 1)) / g;
    let m: i64 = b.mass();
    let mm: u128 = if m < 1 {
        1
    } else {
        m as u128
    };
    proof {
        lemma_mul_le_cap_iff(ceil as int, mm as int, MAX_ACC * (SCALE_SQ as int));
    }
    ceil <= (MAX_ACC as u128) * (SCALE_SQ as u128) / mm
}

/// Per-unit-mass force scalar, exactly. The precondition keeps the value
/// within `MAX_ACC`, so it fits the return type.
fn compute_force_scalar(cfg: &SimConfig, d_sq: u128) -> (f: i64)
    requires
        cfg.wf(),
        1 <= d_sq,
        cfg.force_product() <= MAX_ACC * (SCALE_SQ as int) * (d_sq as int),
    ensures
        f as int == force_scalar_of(*cfg, d_sq as int),
        0 <= f <= MAX_ACC,
{
    let num: u128 = force_product_value(cfg);
    proof {
        vstd::arithmetic::div_mod::lemma_div_denominator(
            num as int,
            SCALE_SQ as int,
            d_sq as int,
        );
        assert(MAX_ACC * (SCALE_SQ as int) * (d_sq as int) == MAX_ACC * ((SCALE_SQ as int)
            * (d_sq as int))) by (nonlinear_arith);
        lemma_div_mul_le_cap(
            num as int,
            (SCALE_SQ as int) * (d_sq as int),
            1,
            MAX_ACC as int,
        );
    }
    let num_units: u128 = num / (SCALE_SQ as u128);
    let raw: u128 = num_units / d_sq;
    raw as i64
}

/// The mathematical value of a body sequence.
pub open spec fn models(s: Seq<Body>) -> Seq<BodyModel> {
    s.map_values(|b: Body| b@)
}

/// A lower bound on every contact threshold of a pair containing a body
/// of this radius: the single radius scaled by the size factor.
pub open spec fn reach_of(radius: int, size_scale: int) -> int {
    (radius * size_scale) / (SCALE as int)
}

/// The admission margin a scaled radius gives: its square, and at least
/// one (a non-colliding, non-coincident pair is separated by at least one
/// subunit even when the scaled radius rounds to zero).
pub open spec fn force_margin(reach: int) -> int {
    if reach < 1 {
        1
    } else {
        reach * reach
    }
}

/// The admission condition tying a configuration to one body: the force
/// numerator, divided (rounding up) by the body's margin and scaled by the
/// body's mass (at least one), stays within `MAX_ACC * SCALE_SQ`. Any pair
/// containing the body is either colliding — and zeroed — or separated by
/// at least the body's own scaled radius, so the force scalar times this
/// body's mass stays within `MAX_ACC` whatever the geometry; the bound
/// survives the integrator moving positions mid-tick.
pub open spec fn body_force_ok(cfg: SimConfig, b: BodyModel) -> bool {
    let m = if b.mass() < 1 {
        1int
    } else {
        b.mass()
    };
    let g = force_margin(reach_of(b.radius, cfg.size_scale as int));
    ((cfg.force_product() + g - 1) / g) * m <= MAX_ACC * (SCALE_SQ as int)
}

/// Every body admitted against the configuration: the accumulator's
/// overflow precondition.
pub open spec fn force_in_bounds(cfg: SimConfig, s: Seq<BodyModel>) -> bool {
    forall|k: int| 0 <= k < s.len() ==> body_force_ok(cfg, #[trigger] s[k])
}

/// At any separation the collision policy does not zero, an admitted
/// body's condition bounds the force numerator times its mass by
/// `MAX_ACC * SCALE_SQ * d_sq`.
proof fn lemma_admission_at_separation(cfg: SimConfig, b: BodyModel, other_radius: int, d_sq: int)
    requires
        cfg.wf(),
        0 < b.radius,
        0 < other_radius,
        body_force_ok(cfg, b),
        1 <= d_sq,
        contact_of(b.radius, other_radius, cfg.size_scale as int) * contact_of(
            b.radius,
            other_radius,
            cfg.size_scale as int,
        ) <= d_sq,
    ensures
        cfg.force_product() * (if b.mass() < 1 {
            1int
        } else {
            b.mass()
        }) <= MAX_ACC * (SCALE_SQ as int) * d_sq,
{
    let fp = cfg.force_product();
    let m = if b.mass() < 1 {
        1int
    } else {
        b.mass()
    };
    let reach = reach_of(b.radius, cfg.size_scale as int);
    let g = force_margin(reach);
    let c = contact_of(b.radius, other_radius, cfg.size_scale as int);
    assert(0 <= fp) by (nonlinear_arith)
        requires
            0 <= cfg.gravity,
            1 <= cfg.size_scale,
            1 <= cfg.distance_scale,
            fp == cfg.gravity * cfg.size_scale * cfg.size_scale * cfg.distance_scale
                * cfg.distance_scale,
    ;
    assert(0 <= b.radius * cfg.size_scale <= (b.radius + other_radius) * cfg.size_scale)
        by (nonlinear_arith)
        requires
            0 < b.radius,
            0 < other_radius,
            1 <= cfg.size_scale,
    ;
    vstd::arithmetic::div_mod::lemma_div_pos_is_pos(b.radius * cfg.size_scale, SCALE as int);
    vstd::arithmetic::div_mod::lemma_div_is_ordered(
        b.radius * cfg.size_scale,
        (b.radius + other_radius) * cfg.size_scale,
        SCALE as int,
    );
    assert(g == (if reach < 1 {
        1int
    } else {
        reach * reach
    }));
    assert(1 <= g && g <= d_sq) by (nonlinear_arith)
        requires
            0 <= reach <= c,
            g == (if reach < 1 {
                1int
            } else {
                reach * reach
            }),
            c * c <= d_sq,
            1 <= d_sq,
    ;
    lemma_ceil_div_covers(fp, g);
    let ceil = (fp + g - 1) / g;
    assert(fp * m <= MAX_ACC * (SCALE_SQ as int) * d_sq) by (nonlinear_arith)
        requires
            0 <= fp,
            1 <= m,
            1 <= g <= d_sq,
            0 <= ceil,
            fp <= ceil * g,
            ceil * m <= MAX_ACC * (SCALE_SQ as int),
    ;
}

/// Whether the pair `(i, j)` counts as colliding: its squared separation
/// lies strictly inside the squared contact threshold. On such a pair the
/// accumulator applies zero force for the tick (the canonical collision
/// policy); at the exact threshold the plain force law applies unchanged.
pub open spec fn colliding(s: Seq<BodyModel>, cfg: SimConfig, i: int, j: int) -> bool {
    let dsq = dist_sq_of(s[i].position, s[j].position);
    let c = contact_of(s[i].radius, s[j].radius, cfg.size_scale as int);
    dsq < c * c
}

/// The per-unit-mass force scalar the accumulator applies to pair
/// `(i, j)`: zero on a colliding pair, and otherwise the plain force
/// scalar at the pair's squared separation. (A configuration variant
/// could instead ramp the force down by `distance / threshold` inside the
/// contact zone; this crate adopts the zero policy throughout.)
pub open spec fn pair_force_scalar(s: Seq<BodyModel>, cfg: SimConfig, i: int, j: int) -> int {
    if colliding(s, cfg, i, j) {
        0
    } else {
        force_scalar_of(cfg, dist_sq_of(s[i].position, s[j].position))
    }
}

/// The force-per-unit-mass vector on body `i` from body `j`: the
/// displacement direction scaled by the pair's force scalar, and the zero
/// vector for a coincident pair (no division by a zero norm).
pub open spec fn pair_fum(s: Seq<BodyModel>, cfg: SimConfig, i: int, j: int) -> Vec3Model {
    let pi = s[i].position;
    let pj = s[j].position;
    let dsq = dist_sq_of(pi, pj);
    if dsq == 0 {
        Vec3Model::zero()
    } else {
        let d = sqrt_floor(dsq);
        let f = pair_force_scalar(s, cfg, i, j);
        Vec3Model {
            x: div_tz((pj.x - pi.x) * f, d),
            y: div_tz((pj.y - pi.y) * f, d),
            z: div_tz((pj.z - pi.z) * f, d),
        }
    }
}

/// A vector scaled by a mass, componentwise and exactly.
pub open spec fn scaled_by_mass(v: Vec3Model, m: int) -> Vec3Model {
    Vec3Model { x: v.x * m, y: v.y * m, z: v.z * m }
}

/// A vector negated componentwise.
pub open spec fn negated(v: Vec3Model) -> Vec3Model {
    Vec3Model { x: -v.x, y: -v.y, z: -v.z }
}

/// The acceleration the pair pass assigns to the first body of a pair:
/// the force-per-unit-mass vector times the other body's mass.
pub open spec fn pair_accel_first(s: Seq<BodyModel>, cfg: SimConfig, i: int, j: int) -> Vec3Model {
    scaled_by_mass(pair_fum(s, cfg, i, j), s[j].mass())
}

/// The acceleration the pair pass assigns to the second body: equal and
/// opposite, the negated force-per-unit-mass vector times the first body's
/// mass.
pub open spec fn pair_accel_second(s: Seq<BodyModel>, cfg: SimConfig, i: int, j: int) -> Vec3Model {
    negated(scaled_by_mass(pair_fum(s, cfg, i, j), s[i].mass()))
}

/// The second velocity-Verlet half-step: the velocity advanced by the
/// average of the stored and the newly computed acceleration over `dt`.
pub open spec fn vel_half_step(v: Vec3Model, a_old: Vec3Model, a_new: Vec3Model, dt: int) -> Vec3Model {
    Vec3Model {
        x: v.x + div_tz((a_old.x + a_new.x) * dt, 2 * (SCALE as int)),
        y: v.y + div_tz((a_old.y + a_new.y) * dt, 2 * (SCALE as int)),
        z: v.z + div_tz((a_old.z + a_new.z) * dt, 2 * (SCALE as int)),
    }
}

/// One pair of the accumulation pass: both bodies get their new
/// acceleration stored and their velocity advanced by the half-step that
/// blends the previously stored acceleration with the new one.
pub open spec fn pair_step(s: Seq<BodyModel>, cfg: SimConfig, dt: int, i: int, j: int) -> Seq<BodyModel> {
    let a1 = pair_accel_first(s, cfg, i, j);
    let a2 = pair_accel_second(s, cfg, i, j);
    let b1 = BodyModel {
        velocity: vel_half_step(s[i].velocity, s[i].acceleration, a1, dt),
        acceleration: a1,
        ..s[i]
    };
    let b2 = BodyModel {
        velocity: vel_half_step(s[j].velocity, s[j].acceleration, a2, dt),
        acceleration: a2,
        ..s[j]
    };
    s.update(i, b1).update(j, b2)
}

/// At an admitted pair the force scalar stays within `MAX_ACC`, and so do
/// its products with either body's mass; the force-per-unit-mass vector is
/// bounded by the scalar itself, the direction factor being at most one in
/// magnitude.
pub proof fn lemma_fum_bounded(s: Seq<BodyModel>, cfg: SimConfig, i: int, j: int)
    requires
        0 <= i < s.len(),
        0 <= j < s.len(),
        s[i].shape_ok(),
        s[j].shape_ok(),
        cfg.wf(),
        body_force_ok(cfg, s[i]),
        body_force_ok(cfg, s[j]),
    ensures
        0 <= pair_force_scalar(s, cfg, i, j) <= MAX_ACC,
        pair_force_scalar(s, cfg, i, j) * s[i].mass() <= MAX_ACC,
        pair_force_scalar(s, cfg, i, j) * s[j].mass() <= MAX_ACC,
        pair_fum(s, cfg, i, j).in_bounds(pair_force_scalar(s, cfg, i, j)),
        pair_fum(s, cfg, i, j).in_bounds(MAX_ACC as int),
{
    let pi = s[i].position;
    let pj = s[j].position;
    let dx = pj.x - pi.x;
    let dy = pj.y - pi.y;
    let dz = pj.z - pi.z;
    let dsq = dist_sq_of(pi, pj);
    assert(dx * dx >= 0 && dy * dy >= 0 && dz * dz >= 0) by (nonlinear_arith);
    let f = pair_force_scalar(s, cfg, i, j);
    let mi = s[i].mass();
    let mj = s[j].mass();
    crate::body::lemma_mass_of_nonneg(s[i].radius, s[i].density);
    crate::body::lemma_mass_of_nonneg(s[j].radius, s[j].density);
    if !colliding(s, cfg, i, j) && dsq >= 1 {
        let fp = cfg.force_product();
        let den = (SCALE_SQ as int) * dsq;
        let big_i = if mi < 1 {
            1int
        } else {
            mi
        };
        let big_j = if mj < 1 {
            1int
        } else {
            mj
        };
        assert(contact_of(s[j].radius, s[i].radius, cfg.size_scale as int) == contact_of(
            s[i].radius,
            s[j].radius,
            cfg.size_scale as int,
        ));
        lemma_admission_at_separation(cfg, s[i], s[j].radius, dsq);
        lemma_admission_at_separation(cfg, s[j], s[i].radius, dsq);
        assert(0 <= fp) by (nonlinear_arith)
            requires
                0 <= cfg.gravity,
                1 <= cfg.size_scale,
                1 <= cfg.distance_scale,
                fp == cfg.gravity * cfg.size_scale * cfg.size_scale * cfg.distance_scale
                    * cfg.distance_scale,
        ;
        vstd::arithmetic::div_mod::lemma_div_denominator(fp, SCALE_SQ as int, dsq);
        assert(1 <= den && MAX_ACC * (SCALE_SQ as int) * dsq == MAX_ACC * den)
            by (nonlinear_arith)
            requires
                1 <= dsq,
                den == (SCALE_SQ as int) * dsq,
        ;
        lemma_div_mul_le_cap(fp, den, big_i, MAX_ACC as int);
        lemma_div_mul_le_cap(fp, den, big_j, MAX_ACC as int);
        vstd::arithmetic::div_mod::lemma_div_pos_is_pos(fp, den);
        assert(f == fp / den);
        assert(f * mi <= f * big_i && f * mj <= f * big_j && f <= f * big_i)
            by (nonlinear_arith)
            requires
                0 <= f,
                0 <= mi,
                0 <= mj,
                big_i == (if mi < 1 {
                    1int
                } else {
                    mi
                }),
                big_j == (if mj < 1 {
                    1int
                } else {
                    mj
                }),
        ;
    } else {
        assert(f == 0);
        assert(f * mi == 0 && f * mj == 0) by (nonlinear_arith)
            requires
                f == 0,
        ;
    }
    if dsq != 0 {
        let d = sqrt_floor(dsq);
        lemma_sqrt_floor_bounds(dsq);
        assert(1 <= d) by (nonlinear_arith)
            requires
                0 <= d,
                1 <= dsq,
                dsq < (d + 1) * (d + 1),
        ;
        assert(-d <= dx <= d && -d <= dy <= d && -d <= dz <= d) by (nonlinear_arith)
            requires
                0 <= d,
                dx * dx <= dsq,
                dy * dy <= dsq,
                dz * dz <= dsq,
                dsq < (d + 1) * (d + 1),
        ;
        assert(-(d * f) <= dx * f <= d * f && -(d * f) <= dy * f <= d * f
            && -(d * f) <= dz * f <= d * f) by (nonlinear_arith)
            requires
                -d <= dx <= d,
                -d <= dy <= d,
                -d <= dz <= d,
                0 <= f,
        ;
        lemma_div_tz_le_factor(dx * f, d, f);
        lemma_div_tz_le_factor(dy * f, d, f);
        lemma_div_tz_le_factor(dz * f, d, f);
    }
}

/// Both accelerations an admitted pair assigns stay within the
/// acceleration bound.
pub proof fn lemma_pair_accel_bounded(s: Seq<BodyModel>, cfg: SimConfig, i: int, j: int)
    requires
        0 <= i < s.len(),
        0 <= j < s.len(),
        s[i].shape_ok(),
        s[j].shape_ok(),
        cfg.wf(),
        body_force_ok(cfg, s[i]),
        body_force_ok(cfg, s[j]),
    ensures
        pair_accel_first(s, cfg, i, j).in_bounds(MAX_ACC as int),
        pair_accel_second(s, cfg, i, j).in_bounds(MAX_ACC as int),
{
    lemma_fum_bounded(s, cfg, i, j);
    crate::body::lemma_mass_of_nonneg(s[i].radius, s[i].density);
    crate::body::lemma_mass_of_nonneg(s[j].radius, s[j].density);
    let f = pair_force_scalar(s, cfg, i, j);
    let fum = pair_fum(s, cfg, i, j);
    let m1 = s[i].mass();
    let m2 = s[j].mass();
    assert(-MAX_ACC <= fum.x * m2 <= MAX_ACC && -MAX_ACC <= fum.y * m2 <= MAX_ACC
        && -MAX_ACC <= fum.z * m2 <= MAX_ACC && -MAX_ACC <= fum.x * m1 <= MAX_ACC
        && -MAX_ACC <= fum.y * m1 <= MAX_ACC && -MAX_ACC <= fum.z * m1 <= MAX_ACC)
        by (nonlinear_arith)
        requires
            fum.in_bounds(f),
            0 <= f,
            0 <= m1,
            0 <= m2,
            f * m1 <= MAX_ACC,
            f * m2 <= MAX_ACC,
    ;
}

/// What the pair pass needs of each of the two bodies it touches: intact
/// shape bounds, a stored acceleration within its bound, and enough room
/// below the mid-pass velocity ceiling for one more half-step.
pub open spec fn pair_ready(s: Seq<BodyModel>, k: int) -> bool {
    &&& s[k].shape_ok()
    &&& s[k].acceleration.in_bounds(MAX_ACC as int)
    &&& s[k].velocity.in_bounds((MAX_MID_VEL - VEL_STEP) as int)
}

/// One component of the velocity half-step, exactly.
fn half_vel(v: i64, a_old: i64, a_new: i64, dt: i64) -> (r: i64)
    requires
        -MAX_ACC <= a_old <= MAX_ACC,
        -MAX_ACC <= a_new <= MAX_ACC,
        -MAX_DT <= dt <= MAX_DT,
        -(MAX_MID_VEL - VEL_STEP) <= v <= MAX_MID_VEL - VEL_STEP,
    ensures
        r as int == v + div_tz((a_old + a_new) * dt, 2 * (SCALE as int)),
{
    let sum: i64 = a_old + a_new;
    proof {
        assert(-(2 * (SCALE as int) * (VEL_STEP as int)) <= (sum as int) * (dt as int)
            <= 2 * (SCALE as int) * (VEL_STEP as int)) by (nonlinear_arith)
            requires
                -(2 * MAX_ACC) <= sum <= 2 * MAX_ACC,
                -MAX_DT <= dt <= MAX_DT,
                2 * MAX_ACC * MAX_DT == 2 * (SCALE as int) * (VEL_STEP as int),
        ;
        lemma_div_tz_le_factor((sum as int) * (dt as int), 2 * (SCALE as int), VEL_STEP as int);
    }
    let delta: i64 = mul_div_tz(sum, dt, 2 * SCALE);
    v + delta
}

/// Runs one pair of the accumulation pass on bodies `i` and `j`, leaving
/// exactly the state `pair_step` describes.
fn apply_pair(bodies: &mut Vec<Body>, cfg: &SimConfig, dt: i64, i: usize, j: usize)
    requires
        cfg.wf(),
        -MAX_DT <= dt <= MAX_DT,
        i < old(bodies).len(),
        j < old(bodies).len(),
        i != j,
        pair_ready(models(old(bodies)@), i as int),
        pair_ready(models(old(bodies)@), j as int),
        body_force_ok(*cfg, models(old(bodies)@)[i as int]),
        body_force_ok(*cfg, models(old(bodies)@)[j as int]),
    ensures
        models(final(bodies)@) == pair_step(
            models(old(bodies)@),
            *cfg,
            dt as int,
            i as int,
            j as int,
        ),
{
    let ghost s = models(bodies@);
    let ghost gi = i as int;
    let ghost gj = j as int;
    let bi: Body = bodies[i];
    let bj: Body = bodies[j];
    proof {
        assert(bi@ == s[gi] && bj@ == s[gj]);
        lemma_fum_bounded(s, *cfg, gi, gj);
        lemma_pair_accel_bounded(s, *cfg, gi, gj);
        crate::body::lemma_mass_of_nonneg(s[gi].radius, s[gi].density);
        crate::body::lemma_mass_of_nonneg(s[gj].radius, s[gj].density);
    }
    let dsq: u128 = dist_sq(&bi.position, &bj.position);
    let contact: i64 = contact_distance(bi.radius, bj.radius, cfg.size_scale);
    proof {
        assert(0 <= (contact as int) * (contact as int)
            <= 100_000_000_000_000_000_000_000_000int) by (nonlinear_arith)
            requires
                0 <= contact <= 10_000_000_000_000i64,
        ;
    }
    let csq: u128 = (contact as u128) * (contact as u128);
    let is_colliding: bool = dsq < csq;
    let mut f: i64 = 0;
    if !is_colliding && dsq > 0 {
        proof {
            lemma_admission_at_separation(*cfg, s[gi], s[gj].radius, dsq as int);
            let fp = cfg.force_product();
            let big_i = if s[gi].mass() < 1 {
                1int
            } else {
                s[gi].mass()
            };
            assert(0 <= fp) by (nonlinear_arith)
                requires
                    0 <= cfg.gravity,
                    1 <= cfg.size_scale,
                    1 <= cfg.distance_scale,
                    fp == cfg.gravity * cfg.size_scale * cfg.size_scale * cfg.distance_scale
                        * cfg.distance_scale,
            ;
            assert(fp <= MAX_ACC * (SCALE_SQ as int) * (dsq as int)) by (nonlinear_arith)
                requires
                    0 <= fp,
                    1 <= big_i,
                    fp * big_i <= MAX_ACC * (SCALE_SQ as int) * (dsq as int),
            ;
        }
        f = compute_force_scalar(cfg, dsq);
    }
    proof {
        assert(is_colliding == colliding(s, *cfg, gi, gj));
        assert(f as int == pair_force_scalar(s, *cfg, gi, gj));
    }
    let m1: i64 = bi.mass();
    let m2: i64 = bj.mass();
    let mut fx: i64 = 0;
    let mut fy: i64 = 0;
    let mut fz: i64 = 0;
    if dsq > 0 {
        let d64: u64 = isqrt(dsq);
        proof {
            assert(1 <= d64) by (nonlinear_arith)
                requires
                    0 <= d64,
                    1 <= dsq,
                    (dsq as int) < (d64 as int + 1) * (d64 as int + 1),
            ;
            assert(d64 <= 4_000_000_000_000_000_000u64) by (nonlinear_arith)
                requires
                    0 <= d64,
                    (d64 as int) * (d64 as int) <= (dsq as int),
                    dsq <= MAX_NORM_SQ,
            ;
            let di = d64 as int;
            let dx = s[gj].position.x - s[gi].position.x;
            let dy = s[gj].position.y - s[gi].position.y;
            let dz = s[gj].position.z - s[gi].position.z;
            assert(dx * dx <= dsq && dy * dy <= dsq && dz * dz <= dsq) by (nonlinear_arith)
                requires
                    dsq == dx * dx + dy * dy + dz * dz,
            ;
            assert(-di <= dx <= di && -di <= dy <= di && -di <= dz <= di) by (nonlinear_arith)
                requires
                    0 <= di,
                    dx * dx <= dsq,
                    dy * dy <= dsq,
                    dz * dz <= dsq,
                    (dsq as int) < (di + 1) * (di + 1),
            ;
            assert(-(di * f) <= dx * f <= di * f && -(di * f) <= dy * f <= di * f
                && -(di * f) <= dz * f <= di * f) by (nonlinear_arith)
                requires
                    -di <= dx <= di,
                    -di <= dy <= di,
                    -di <= dz <= di,
                    0 <= f,
            ;
            lemma_div_tz_le_factor(dx * f, di, f as int);
            lemma_div_tz_le_factor(dy * f, di, f as int);
            lemma_div_tz_le_factor(dz * f, di, f as int);
        }
        let d: i64 = d64 as i64;
        fx = mul_div_tz(bj.position.x - bi.position.x, f, d);
        fy = mul_div_tz(bj.position.y - bi.position.y, f, d);
        fz = mul_div_tz(bj.position.z - bi.position.z, f, d);
    }
    proof {
        assert(fx as int == pair_fum(s, *cfg, gi, gj).x);
        assert(fy as int == pair_fum(s, *cfg, gi, gj).y);
        assert(fz as int == pair_fum(s, *cfg, gi, gj).z);
        assert(-f <= fx <= f && -f <= fy <= f && -f <= fz <= f);
        assert(-MAX_ACC <= (fx as int) * (m2 as int) <= MAX_ACC && -MAX_ACC <= (fy as int)
            * (m2 as int) <= MAX_ACC && -MAX_ACC <= (fz as int) * (m2 as int) <= MAX_ACC
            && -MAX_ACC <= (fx as int) * (m1 as int) <= MAX_ACC && -MAX_ACC <= (fy as int)
            * (m1 as int) <= MAX_ACC && -MAX_ACC <= (fz as int) * (m1 as int) <= MAX_ACC)
            by (nonlinear_arith)
            requires
                -f <= fx <= f,
                -f <= fy <= f,
                -f <= fz <= f,
                0 <= f,
                0 <= m1,
                0 <= m2,
                (f as int) * (m1 as int) <= MAX_ACC,
                (f as int) * (m2 as int) <= MAX_ACC,
        ;
    }
    let a1 = Vec3 { x: fx * m2, y: fy * m2, z: fz * m2 };
    let a2 = Vec3 { x: -(fx * m1), y: -(fy * m1), z: -(fz * m1) };
    let nv1 = Vec3 {
        x: half_vel(bi.velocity.x, bi.acceleration.x, a1.x, dt),
        y: half_vel(bi.velocity.y, bi.acceleration.y, a1.y, dt),
        z: half_vel(bi.velocity.z, bi.acceleration.z, a1.z, dt),
    };
    let nv2 = Vec3 {
        x: half_vel(bj.velocity.x, bj.acceleration.x, a2.x, dt),
        y: half_vel(bj.velocity.y, bj.acceleration.y, a2.y, dt),
        z: half_vel(bj.velocity.z, bj.acceleration.z, a2.z, dt),
    };
    let nb1 = Body { radius: bi.radius, density: bi.density, position: bi.position, velocity: nv1, acceleration: a1 };
    let nb2 = Body { radius: bj.radius, density: bj.density, position: bj.position, velocity: nv2, acceleration: a2 };
    bodies.set(i, nb1);
    bodies.set(j, nb2);
    proof {
        let t = pair_step(s, *cfg, dt as int, gi, gj);
        assert(nb1@ == t[gi]);
        assert(nb2@ == t[gj]);
        assert forall|k: int| 0 <= k < s.len() implies models(bodies@)[k] == t[k] by {
            if k != gi && k != gj {
                assert(bodies@[k] == old(bodies)@[k]);
            }
        }
        assert(models(bodies@) =~= t);
    }
}

/// One velocity half-step moves each component by at most `VEL_STEP`.
pub proof fn lemma_vel_half_step_bounded(v: Vec3Model, a_old: Vec3Model, a_new: Vec3Model, dt: int)
    requires
        a_old.in_bounds(MAX_ACC as int),
        a_new.in_bounds(MAX_ACC as int),
        -MAX_DT <= dt <= MAX_DT,
    ensures
        -VEL_STEP <= vel_half_step(v, a_old, a_new, dt).x - v.x <= VEL_STEP,
        -VEL_STEP <= vel_half_step(v, a_old, a_new, dt).y - v.y <= VEL_STEP,
        -VEL_STEP <= vel_half_step(v, a_old, a_new, dt).z - v.z <= VEL_STEP,
{
    let den = 2 * (SCALE as int);
    assert(-(den * VEL_STEP) <= (a_old.x + a_new.x) * dt <= den * VEL_STEP
        && -(den * VEL_STEP) <= (a_old.y + a_new.y) * dt <= den * VEL_STEP
        && -(den * VEL_STEP) <= (a_old.z + a_new.z) * dt <= den * VEL_STEP)
        by (nonlinear_arith)
        requires
            den == 2 * (SCALE as int),
            a_old.in_bounds(MAX_ACC as int),
            a_new.in_bounds(MAX_ACC as int),
            -MAX_DT <= dt <= MAX_DT,
            2 * MAX_ACC * MAX_DT == den * VEL_STEP,
    ;
    lemma_div_tz_le_factor((a_old.x + a_new.x) * dt, den, VEL_STEP as int);
    lemma_div_tz_le_factor((a_old.y + a_new.y) * dt, den, VEL_STEP as int);
    lemma_div_tz_le_factor((a_old.z + a_new.z) * dt, den, VEL_STEP as int);
}

/// One component of the integrator's position update: the velocity term
/// and the half-acceleration term, each rounded toward zero.
pub open spec fn pos_step_coord(p: int, v: int, a: int, dt: int) -> int {
    p + div_tz(v * dt, SCALE as int) + div_tz(a * dt * dt, 2 * (SCALE_SQ as int))
}

/// The first velocity-Verlet half: the position advanced by
/// `velocity * dt + acceleration * dt^2 / 2`, using the acceleration left
/// over from the previous tick. Velocity and acceleration are untouched.
pub open spec fn pos_step(b: BodyModel, dt: int) -> BodyModel {
    BodyModel {
        position: Vec3Model {
            x: pos_step_coord(b.position.x, b.velocity.x, b.acceleration.x, dt),
            y: pos_step_coord(b.position.y, b.velocity.y, b.acceleration.y, dt),
            z: pos_step_coord(b.position.z, b.velocity.z, b.acceleration.z, dt),
        },
        ..b
    }
}

/// Every body advanced by the integrator pass.
pub open spec fn integrated(s: Seq<BodyModel>, dt: int) -> Seq<BodyModel> {
    s.map_values(|b: BodyModel| pos_step(b, dt))
}

/// A tick's worth of position update keeps each component inside the
/// mid-tick position bound.
pub proof fn lemma_pos_step_in_bounds(b: BodyModel, dt: int)
    requires
        b.ok(),
        -MAX_DT <= dt <= MAX_DT,
    ensures
        pos_step(b, dt).position.in_bounds(MAX_MID_POS as int),
{
    lemma_pos_coord_bounds(b.position.x, b.velocity.x, b.acceleration.x, dt);
    lemma_pos_coord_bounds(b.position.y, b.velocity.y, b.acceleration.y, dt);
    lemma_pos_coord_bounds(b.position.z, b.velocity.z, b.acceleration.z, dt);
}

/// Componentwise bounds for the position update's two quotient terms.
proof fn lemma_pos_coord_bounds(p: int, v: int, a: int, dt: int)
    requires
        -MAX_POS <= p <= MAX_POS,
        -MAX_VEL <= v <= MAX_VEL,
        -MAX_ACC <= a <= MAX_ACC,
        -MAX_DT <= dt <= MAX_DT,
    ensures
        -100_000_000_000_000_000int <= div_tz(v * dt, SCALE as int) <= 100_000_000_000_000_000int,
        -500_000_000_000_000_000int <= div_tz(a * dt * dt, 2 * (SCALE_SQ as int))
            <= 500_000_000_000_000_000int,
        -MAX_MID_POS <= pos_step_coord(p, v, a, dt) <= MAX_MID_POS,
{
    assert(-100_000_000_000_000_000_000_000int <= v * dt <= 100_000_000_000_000_000_000_000int)
        by (nonlinear_arith)
        requires
            -MAX_VEL <= v <= MAX_VEL,
            -MAX_DT <= dt <= MAX_DT,
    ;
    lemma_div_tz_bound(v * dt, SCALE as int, 100_000_000_000_000_000_000_000int);
    assert(-1_000_000_000_000_000_000_000_000_000_000int <= a * dt * dt
        <= 1_000_000_000_000_000_000_000_000_000_000int) by (nonlinear_arith)
        requires
            -MAX_ACC <= a <= MAX_ACC,
            -MAX_DT <= dt <= MAX_DT,
    ;
    lemma_div_tz_bound(a * dt * dt, 2 * (SCALE_SQ as int), 1_000_000_000_000_000_000_000_000_000_000int);
}

/// The integrator's update of one body, exactly.
fn integrate_body(b: &Body, dt: i64) -> (r: Body)
    requires
        b@.ok(),
        -MAX_DT <= dt <= MAX_DT,
    ensures
        r@ == pos_step(b@, dt as int),
        r@.position.in_bounds(MAX_MID_POS as int),
{
    proof {
        lemma_pos_coord_bounds(b@.position.x, b@.velocity.x, b@.acceleration.x, dt as int);
        lemma_pos_coord_bounds(b@.position.y, b@.velocity.y, b@.acceleration.y, dt as int);
        lemma_pos_coord_bounds(b@.position.z, b@.velocity.z, b@.acceleration.z, dt as int);
        lemma_pos_step_in_bounds(b@, dt as int);
        assert(-1_000_000_000_000_000_000_000int <= b@.acceleration.x * dt
            <= 1_000_000_000_000_000_000_000int
            && -1_000_000_000_000_000_000_000_000_000_000int <= (b@.acceleration.x * dt) * dt
                <= 1_000_000_000_000_000_000_000_000_000_000int) by (nonlinear_arith)
            requires
                -MAX_ACC <= b@.acceleration.x <= MAX_ACC,
                -MAX_DT <= dt <= MAX_DT,
        ;
        assert(-1_000_000_000_000_000_000_000int <= b@.acceleration.y * dt
            <= 1_000_000_000_000_000_000_000int
            && -1_000_000_000_000_000_000_000_000_000_000int <= (b@.acceleration.y * dt) * dt
                <= 1_000_000_000_000_000_000_000_000_000_000int) by (nonlinear_arith)
            requires
                -MAX_ACC <= b@.acceleration.y <= MAX_ACC,
                -MAX_DT <= dt <= MAX_DT,
        ;
        assert(-1_000_000_000_000_000_000_000int <= b@.acceleration.z * dt
            <= 1_000_000_000_000_000_000_000int
            && -1_000_000_000_000_000_000_000_000_000_000int <= (b@.acceleration.z * dt) * dt
                <= 1_000_000_000_000_000_000_000_000_000_000int) by (nonlinear_arith)
            requires
                -MAX_ACC <= b@.acceleration.z <= MAX_ACC,
                -MAX_DT <= dt <= MAX_DT,
        ;
    }
    let tx: i64 = mul_div_tz(b.velocity.x, dt, SCALE);
    let ty: i64 = mul_div_tz(b.velocity.y, dt, SCALE);
    let tz: i64 = mul_div_tz(b.velocity.z, dt, SCALE);
    let hx: i64 = wide_div_tz((b.acceleration.x as i128) * (dt as i128) * (dt as i128), 2 * SCALE_SQ);
    let hy: i64 = wide_div_tz((b.acceleration.y as i128) * (dt as i128) * (dt as i128), 2 * SCALE_SQ);
    let hz: i64 = wide_div_tz((b.acceleration.z as i128) * (dt as i128) * (dt as i128), 2 * SCALE_SQ);
    Body {
        radius: b.radius,
        density: b.density,
        position: Vec3 {
            x: b.position.x + tx + hx,
            y: b.position.y + ty + hy,
            z: b.position.z + tz + hz,
        },
        velocity: b.velocity,
        acceleration: b.acceleration,
    }
}

/// Every body fit for the start of a tick, with the body count capped.
pub open spec fn world_ok(s: Seq<BodyModel>) -> bool {
    &&& s.len() <= MAX_BODIES
    &&& forall|k: int| 0 <= k < s.len() ==> (#[trigger] s[k]).ok()
}

/// The body store: the set of simulated bodies a scene owns, in index
/// order.
pub struct World {
    pub bodies: Vec<Body>,
}

impl View for World {
    type V = Seq<BodyModel>;

    open spec fn view(&self) -> Seq<BodyModel> {
        models(self.bodies@)
    }
}

impl World {
    /// An empty world.
    pub fn new() -> (w: World)
        ensures
            w@.len() == 0,
    {
        World { bodies: Vec::new() }
    }

    /// The number of bodies.
    pub fn len(&self) -> (n: usize)
        ensures
            n == self@.len(),
    {
        self.bodies.len()
    }

    /// The body at index `k`.
    pub fn get_body(&self, k: usize) -> (b: Body)
        requires
            k < self@.len(),
        ensures
            b@ == self@[k as int],
    {
        self.bodies[k]
    }

    /// Appends a body, refusing to grow past `MAX_BODIES`.
    pub fn add_body(&mut self, b: Body) -> (added: bool)
        ensures
            added <==> old(self)@.len() < MAX_BODIES,
            added ==> final(self)@ == old(self)@.push(b@),
            !added ==> final(self)@ == old(self)@,
    {
        if self.bodies.len() < MAX_BODIES {
            self.bodies.push(b);
            proof {
                assert(models(self.bodies@) =~= models(old(self).bodies@).push(b@));
            }
            true
        } else {
            false
        }
    }

    /// Whether every body satisfies its bounds and the count its cap,
    /// decided at run time.
    pub fn is_well_formed(&self) -> (b: bool)
        ensures
            b == world_ok(self@),
    {
        let n = self.bodies.len();
        if n > MAX_BODIES {
            return false;
        }
        let mut idx: usize = 0;
        while idx < n
            invariant
                idx <= n,
                n == self.bodies@.len(),
                n <= MAX_BODIES,
                forall|k: int| 0 <= k < idx ==> (#[trigger] models(self.bodies@)[k]).ok(),
            decreases n - idx,
        {
            if !self.bodies[idx].is_well_formed() {
                proof {
                    assert(models(self.bodies@)[idx as int] == self.bodies@[idx as int]@);
                }
                return false;
            }
            idx += 1;
        }
        true
    }

    /// Whether the configuration admits every body in the world, decided
    /// at run time: the check a caller runs (with `is_well_formed`) before
    /// asking for a tick.
    pub fn forces_in_bounds(&self, cfg: &SimConfig) -> (r: bool)
        requires
            cfg.wf(),
            world_ok(self@),
        ensures
            r == force_in_bounds(*cfg, self@),
    {
        let n = self.bodies.len();
        let mut idx: usize = 0;
        while idx < n
            invariant
                idx <= n,
                n == self.bodies@.len(),
                cfg.wf(),
                world_ok(models(self.bodies@)),
                forall|k: int|
                    0 <= k < idx ==> body_force_ok(*cfg, #[trigger] models(self.bodies@)[k]),
            decreases n - idx,
        {
            let b = self.bodies[idx];
            proof {
                assert(b@ == models(self.bodies@)[idx as int]);
                assert(models(self.bodies@)[idx as int].ok());
            }
            if !body_force_within(cfg, &b) {
                return false;
            }
            idx += 1;
        }
        true
    }

    /// A read-only snapshot of every body's current position, in index
    /// order, for rendering collaborators.
    pub fn positions(&self) -> (ps: Vec<Vec3>)
        ensures
            ps@.len() == self@.len(),
            forall|k: int| 0 <= k < self@.len() ==> (#[trigger] ps@[k])@ == self@[k].position,
    {
        let n = self.bodies.len();
        let mut ps: Vec<Vec3> = Vec::new();
        let mut idx: usize = 0;
        while idx < n
            invariant
                idx <= n,
                n == self.bodies@.len(),
                ps@.len() == idx,
                forall|k: int|
                    0 <= k < idx ==> (#[trigger] ps@[k])@ == models(self.bodies@)[k].position,
            decreases n - idx,
        {
            ps.push(self.bodies[idx].position);
            idx += 1;
        }
        ps
    }

    /// The integrator pass: every body's position advanced by
    /// `velocity * dt + acceleration * dt^2 / 2`, using the acceleration
    /// stored by the previous tick's accumulation pass. Runs before the
    /// accumulator each tick.
    pub fn velocity_verlet(&mut self, dt: i64)
        requires
            world_ok(old(self)@),
            -MAX_DT <= dt <= MAX_DT,
        ensures
            final(self)@ == integrated(old(self)@, dt as int),
    {
        let ghost s0 = self@;
        let n = self.bodies.len();
        let mut idx: usize = 0;
        while idx < n
            invariant
                idx <= n,
                n == self.bodies@.len(),
                n == s0.len(),
                world_ok(s0),
                -MAX_DT <= dt <= MAX_DT,
                forall|k: int| 0 <= k < idx ==> models(self.bodies@)[k] == #[trigger] integrated(
                    s0,
                    dt as int,
                )[k],
                forall|k: int| idx <= k < n ==> models(self.bodies@)[k] == #[trigger] s0[k],
            decreases n - idx,
        {
            let b = self.bodies[idx];
            proof {
                assert(b@ == models(self.bodies@)[idx as int]);
                assert(b@ == s0[idx as int]);
            }
            let nb = integrate_body(&b, dt);
            self.bodies.set(idx, nb);
            idx += 1;
        }
        proof {
            assert(self@ =~= integrated(s0, dt as int));
        }
    }

    /// The accumulator pass: every unordered pair `(i, j)` with `i < j`,
    /// exactly once, in index order. Each pair gets its new accelerations
    /// stored and the second velocity-Verlet half-step applied, as
    /// `pair_step` describes; `accumulated` chains the pairs in the order
    /// this loop runs them.
    pub fn calculate_acceleration_velocity(&mut self, cfg: &SimConfig, dt: i64)
        requires
            cfg.wf(),
            -MAX_DT <= dt <= MAX_DT,
            accum_ready(old(self)@),
            force_in_bounds(*cfg, old(self)@),
        ensures
            final(self)@ == accumulated(old(self)@, *cfg, dt as int),
    {
        let ghost s0 = self@;
        let ghost goal = accumulated(s0, *cfg, dt as int);
        let n = self.bodies.len();
        let mut i: usize = 0;
        proof {
            lemma_entry_mid_ok(s0, n as int);
        }
        while i < n
            invariant
                i <= n,
                n == self.bodies@.len(),
                n <= MAX_BODIES,
                cfg.wf(),
                -MAX_DT <= dt <= MAX_DT,
                outer_pairs(models(self.bodies@), *cfg, dt as int, i as int, n as int) == goal,
                mid_ok(models(self.bodies@), i as int, i as int + 1, n as int),
                force_in_bounds(*cfg, models(self.bodies@)),
            decreases n - i,
        {
            let mut j: usize = i + 1;
            while j < n
                invariant
                    i < n,
                    i + 1 <= j <= n,
                    n == self.bodies@.len(),
                    n <= MAX_BODIES,
                    cfg.wf(),
                    -MAX_DT <= dt <= MAX_DT,
                    outer_pairs(
                        inner_pairs(models(self.bodies@), *cfg, dt as int, i as int, j as int, n as int),
                        *cfg,
                        dt as int,
                        i as int + 1,
                        n as int,
                    ) == goal,
                    mid_ok(models(self.bodies@), i as int, j as int, n as int),
                    force_in_bounds(*cfg, models(self.bodies@)),
                decreases n - j,
            {
                let ghost s_pre = models(self.bodies@);
                proof {
                    lemma_pair_ready_from_mid(s_pre, i as int, j as int, n as int);
                    assert(body_force_ok(*cfg, s_pre[i as int]));
                    assert(body_force_ok(*cfg, s_pre[j as int]));
                }
                apply_pair(&mut self.bodies, cfg, dt, i, j);
                proof {
                    lemma_mid_ok_after_pair(s_pre, *cfg, dt as int, i as int, j as int, n as int);
                    lemma_force_in_bounds_after_pair(s_pre, *cfg, dt as int, i as int, j as int);
                }
                j += 1;
            }
            proof {
                lemma_mid_ok_outer_advance(models(self.bodies@), i as int, n as int);
            }
            i += 1;
        }
    }

    /// One full tick: the integrator pass followed by the accumulator
    /// pass, in that order. `tick_state` names the exact result.
    pub fn tick(&mut self, cfg: &SimConfig, dt: i64)
        requires
            cfg.wf(),
            world_ok(old(self)@),
            force_in_bounds(*cfg, old(self)@),
            -MAX_DT <= dt <= MAX_DT,
        ensures
            final(self)@ == tick_state(old(self)@, *cfg, dt as int),
    {
        let ghost s0 = self@;
        self.velocity_verlet(dt);
        proof {
            assert forall|k: int| 0 <= k < self@.len() implies (#[trigger] self@[k]).shape_ok()
                && self@[k].velocity.in_bounds(MAX_VEL as int) && self@[k].acceleration.in_bounds(
                MAX_ACC as int,
            ) by {
                assert(self@[k] == pos_step(s0[k], dt as int));
                lemma_pos_step_in_bounds(s0[k], dt as int);
            }
            assert forall|k: int| 0 <= k < self@.len() implies body_force_ok(
                *cfg,
                #[trigger] self@[k],
            ) by {
                assert(self@[k] == pos_step(s0[k], dt as int));
                assert(self@[k].radius == s0[k].radius && self@[k].density == s0[k].density);
                assert(body_force_ok(*cfg, s0[k]));
            }
        }
        self.calculate_acceleration_velocity(cfg, dt);
    }
}

/// What the accumulator needs at entry: capped body count and, for every
/// body, intact shape bounds, a velocity within the tick-start bound, and
/// an acceleration within its bound.
pub open spec fn accum_ready(s: Seq<BodyModel>) -> bool {
    &&& s.len() <= MAX_BODIES
    &&& forall|k: int|
        0 <= k < s.len() ==> (#[trigger] s[k]).shape_ok() && s[k].velocity.in_bounds(
            MAX_VEL as int,
        ) && s[k].acceleration.in_bounds(MAX_ACC as int)
}

/// The pairs `(i, j), (i, j + 1), ..., (i, n - 1)` applied in order.
pub open spec fn inner_pairs(s: Seq<BodyModel>, cfg: SimConfig, dt: int, i: int, j: int, n: int) -> Seq<BodyModel>
    decreases n - j,
{
    if j < 0 || j >= n {
        s
    } else {
        inner_pairs(pair_step(s, cfg, dt, i, j), cfg, dt, i, j + 1, n)
    }
}

/// All pairs whose first index is at least `i`, applied in index order.
pub open spec fn outer_pairs(s: Seq<BodyModel>, cfg: SimConfig, dt: int, i: int, n: int) -> Seq<BodyModel>
    decreases n - i,
{
    if i < 0 || i >= n {
        s
    } else {
        outer_pairs(inner_pairs(s, cfg, dt, i, i + 1, n), cfg, dt, i + 1, n)
    }
}

/// The whole accumulator pass: every unordered pair once, in index order.
pub open spec fn accumulated(s: Seq<BodyModel>, cfg: SimConfig, dt: int) -> Seq<BodyModel> {
    outer_pairs(s, cfg, dt, 0, s.len() as int)
}

/// One full tick: positions first, then forces and velocities.
pub open spec fn tick_state(s: Seq<BodyModel>, cfg: SimConfig, dt: int) -> Seq<BodyModel> {
    accumulated(integrated(s, dt), cfg, dt)
}

/// How many already-applied pairs touch body `k` when the pass stands
/// before pair `(i, j)`: bodies before `i` are done with all `n - 1` of
/// their pairs; body `i` has finished those up to `j`; later bodies have
/// met each earlier first index once.
pub open spec fn touched(k: int, i: int, j: int, n: int) -> int {
    if k < i {
        n - 1
    } else if k == i {
        j - 1
    } else if k < j {
        i + 1
    } else {
        i
    }
}

/// The loop invariant of the accumulator pass, standing before pair
/// `(i, j)`: shapes and accelerations within their bounds, and each
/// velocity within the tick-start bound plus one `VEL_STEP` per pair that
/// has touched its body.
pub open spec fn mid_ok(s: Seq<BodyModel>, i: int, j: int, n: int) -> bool {
    &&& s.len() == n
    &&& forall|k: int|
        0 <= k < n ==> (#[trigger] s[k]).shape_ok() && s[k].acceleration.in_bounds(MAX_ACC as int)
            && s[k].velocity.in_bounds(MAX_VEL + touched(k, i, j, n) * VEL_STEP)
}

/// At the start of the pass nothing has been touched yet.
proof fn lemma_entry_mid_ok(s: Seq<BodyModel>, n: int)
    requires
        accum_ready(s),
        n == s.len(),
    ensures
        mid_ok(s, 0, 1, n),
{
    assert forall|k: int| 0 <= k < n implies (#[trigger] s[k]).shape_ok()
        && s[k].acceleration.in_bounds(MAX_ACC as int) && s[k].velocity.in_bounds(
        MAX_VEL + touched(k, 0, 1, n) * VEL_STEP,
    ) by {
        assert(touched(k, 0, 1, n) >= 0);
    }
}

/// Before pair `(i, j)` both of its bodies are ready for one more
/// half-step: each has been touched at most `MAX_BODIES - 2` times.
proof fn lemma_pair_ready_from_mid(s: Seq<BodyModel>, i: int, j: int, n: int)
    requires
        mid_ok(s, i, j, n),
        0 <= i < j < n,
        n <= MAX_BODIES,
    ensures
        pair_ready(s, i),
        pair_ready(s, j),
{
    assert(touched(i, i, j, n) == j - 1 && j - 1 <= MAX_BODIES - 2);
    assert(touched(j, i, j, n) == i && i <= MAX_BODIES - 2);
}

/// A pair step never changes a radius or a density, so the admission
/// condition of every body survives it.
proof fn lemma_force_in_bounds_after_pair(s: Seq<BodyModel>, cfg: SimConfig, dt: int, i: int, j: int)
    requires
        force_in_bounds(cfg, s),
        0 <= i < s.len(),
        0 <= j < s.len(),
    ensures
        force_in_bounds(cfg, pair_step(s, cfg, dt, i, j)),
{
    let t = pair_step(s, cfg, dt, i, j);
    assert forall|k: int| 0 <= k < t.len() implies body_force_ok(cfg, #[trigger] t[k]) by {
        assert(t[k].radius == s[k].radius && t[k].density == s[k].density);
        assert(body_force_ok(cfg, s[k]));
    }
}

/// Applying pair `(i, j)` preserves the invariant, advanced to `(i, j+1)`.
proof fn lemma_mid_ok_after_pair(s: Seq<BodyModel>, cfg: SimConfig, dt: int, i: int, j: int, n: int)
    requires
        mid_ok(s, i, j, n),
        cfg.wf(),
        -MAX_DT <= dt <= MAX_DT,
        0 <= i < j < n,
        n <= MAX_BODIES,
        body_force_ok(cfg, s[i]),
        body_force_ok(cfg, s[j]),
    ensures
        mid_ok(pair_step(s, cfg, dt, i, j), i, j + 1, n),
{
    let t = pair_step(s, cfg, dt, i, j);
    lemma_pair_accel_bounded(s, cfg, i, j);
    lemma_vel_half_step_bounded(
        s[i].velocity,
        s[i].acceleration,
        pair_accel_first(s, cfg, i, j),
        dt,
    );
    lemma_vel_half_step_bounded(
        s[j].velocity,
        s[j].acceleration,
        pair_accel_second(s, cfg, i, j),
        dt,
    );
    assert forall|k: int| 0 <= k < n implies (#[trigger] t[k]).shape_ok()
        && t[k].acceleration.in_bounds(MAX_ACC as int) && t[k].velocity.in_bounds(
        MAX_VEL + touched(k, i, j + 1, n) * VEL_STEP,
    ) by {
        if k == i {
            assert(touched(i, i, j + 1, n) == j);
        } else if k == j {
            assert(touched(j, i, j + 1, n) == i + 1);
        } else {
            assert(t[k] == s[k]);
            assert(touched(k, i, j, n) <= touched(k, i, j + 1, n));
        }
    }
}

/// Newton's third law, exactly: the accelerations a pair assigns satisfy
/// `acc_i * mass_i == -(acc_j * mass_j)` in every component, at full
/// precision, because both sides share the one force-per-unit-mass vector
/// the pair computes.
pub proof fn lemma_newton_third_law(s: Seq<BodyModel>, cfg: SimConfig, i: int, j: int)
    ensures
        pair_accel_first(s, cfg, i, j).x * s[i].mass() == -(pair_accel_second(s, cfg, i, j).x
            * s[j].mass()),
        pair_accel_first(s, cfg, i, j).y * s[i].mass() == -(pair_accel_second(s, cfg, i, j).y
            * s[j].mass()),
        pair_accel_first(s, cfg, i, j).z * s[i].mass() == -(pair_accel_second(s, cfg, i, j).z
            * s[j].mass()),
{
    let fum = pair_fum(s, cfg, i, j);
    let m1 = s[i].mass();
    let m2 = s[j].mass();
    assert(fum.x * m2 * m1 == -(-(fum.x * m1) * m2) && fum.y * m2 * m1 == -(-(fum.y * m1) * m2)
        && fum.z * m2 * m1 == -(-(fum.z * m1) * m2)) by (nonlinear_arith);
}

/// A coincident pair (zero separation) contributes exactly zero
/// acceleration to both bodies: the direction resolves to the zero vector
/// and nothing divides by the zero norm.
pub proof fn lemma_coincident_pair_zero_acceleration(s: Seq<BodyModel>, cfg: SimConfig, i: int, j: int)
    requires
        s[i].position == s[j].position,
    ensures
        pair_accel_first(s, cfg, i, j) == Vec3Model::zero(),
        pair_accel_second(s, cfg, i, j) == Vec3Model::zero(),
{
    assert(dist_sq_of(s[i].position, s[j].position) == 0);
    let fum = pair_fum(s, cfg, i, j);
    assert(fum == Vec3Model::zero());
    assert(fum.x * s[j].mass() == 0 && fum.x * s[i].mass() == 0) by (nonlinear_arith)
        requires
            fum.x == 0,
    ;
}

/// The canonical collision policy: a pair whose separation lies strictly
/// inside the contact threshold gets exactly zero force, hence zero
/// acceleration on both sides, for that tick.
pub proof fn lemma_colliding_pair_zero_acceleration(s: Seq<BodyModel>, cfg: SimConfig, i: int, j: int)
    requires
        colliding(s, cfg, i, j),
    ensures
        pair_accel_first(s, cfg, i, j) == Vec3Model::zero(),
        pair_accel_second(s, cfg, i, j) == Vec3Model::zero(),
{
    let pi = s[i].position;
    let pj = s[j].position;
    let dsq = dist_sq_of(pi, pj);
    assert(pair_force_scalar(s, cfg, i, j) == 0);
    let fum = pair_fum(s, cfg, i, j);
    if dsq != 0 {
        assert(dsq >= 0) by (nonlinear_arith)
            requires
                dsq == (pj.x - pi.x) * (pj.x - pi.x) + (pj.y - pi.y) * (pj.y - pi.y) + (pj.z
                    - pi.z) * (pj.z - pi.z),
        ;
        let d = sqrt_floor(dsq);
        lemma_sqrt_floor_bounds(dsq);
        assert(1 <= d) by (nonlinear_arith)
            requires
                0 <= d,
                1 <= dsq,
                dsq < (d + 1) * (d + 1),
        ;
        assert((pj.x - pi.x) * 0 == 0 && (pj.y - pi.y) * 0 == 0 && (pj.z - pi.z) * 0 == 0)
            by (nonlinear_arith);
        vstd::arithmetic::div_mod::lemma_div_basics_1(d);
        assert(fum == Vec3Model::zero());
    }
    assert(fum.x * s[j].mass() == 0 && fum.x * s[i].mass() == 0 && fum.y * s[j].mass() == 0
        && fum.y * s[i].mass() == 0 && fum.z * s[j].mass() == 0 && fum.z * s[i].mass() == 0)
        by (nonlinear_arith)
        requires
            fum == Vec3Model::zero(),
    ;
}

/// No force spike at the exact contact boundary: a pair standing exactly
/// at the squared threshold is not colliding, and the plain force law
/// applies to it unchanged (never a sign-inverted or otherwise special
/// value).
pub proof fn lemma_contact_boundary_plain_force(s: Seq<BodyModel>, cfg: SimConfig, i: int, j: int)
    requires
        dist_sq_of(s[i].position, s[j].position) == contact_of(
            s[i].radius,
            s[j].radius,
            cfg.size_scale as int,
        ) * contact_of(s[i].radius, s[j].radius, cfg.size_scale as int),
    ensures
        !colliding(s, cfg, i, j),
        pair_force_scalar(s, cfg, i, j) == force_scalar_of(
            cfg,
            dist_sq_of(s[i].position, s[j].position),
        ),
{
}

/// A pair applied with `dt == 0` moves no position and no velocity; only
/// the stored accelerations are replaced.
proof fn lemma_pair_step_zero_dt(s: Seq<BodyModel>, cfg: SimConfig, i: int, j: int)
    requires
        0 <= i < s.len(),
        0 <= j < s.len(),
    ensures
        pair_step(s, cfg, 0, i, j).len() == s.len(),
        forall|k: int|
            0 <= k < s.len() ==> (#[trigger] pair_step(s, cfg, 0, i, j)[k]).position
                == s[k].position && pair_step(s, cfg, 0, i, j)[k].velocity == s[k].velocity,
{
    let t = pair_step(s, cfg, 0, i, j);
    let a1 = pair_accel_first(s, cfg, i, j);
    let a2 = pair_accel_second(s, cfg, i, j);
    assert((s[i].acceleration.x + a1.x) * 0 == 0 && (s[i].acceleration.y + a1.y) * 0 == 0
        && (s[i].acceleration.z + a1.z) * 0 == 0 && (s[j].acceleration.x + a2.x) * 0 == 0
        && (s[j].acceleration.y + a2.y) * 0 == 0 && (s[j].acceleration.z + a2.z) * 0 == 0)
        by (nonlinear_arith);
    assert(vel_half_step(s[i].velocity, s[i].acceleration, a1, 0) == s[i].velocity);
    assert(vel_half_step(s[j].velocity, s[j].acceleration, a2, 0) == s[j].velocity);
}

/// The inner pair run with `dt == 0` preserves positions and velocities.
proof fn lemma_inner_pairs_zero_dt(s: Seq<BodyModel>, cfg: SimConfig, i: int, j: int, n: int)
    requires
        0 <= i < n,
        n == s.len(),
    ensures
        inner_pairs(s, cfg, 0, i, j, n).len() == s.len(),
        forall|k: int|
            0 <= k < s.len() ==> (#[trigger] inner_pairs(s, cfg, 0, i, j, n)[k]).position
                == s[k].position && inner_pairs(s, cfg, 0, i, j, n)[k].velocity == s[k].velocity,
    decreases n - j,
{
    if !(j < 0 || j >= n) {
        lemma_pair_step_zero_dt(s, cfg, i, j);
        lemma_inner_pairs_zero_dt(pair_step(s, cfg, 0, i, j), cfg, i, j + 1, n);
    }
}

/// The outer pair run with `dt == 0` preserves positions and velocities.
proof fn lemma_outer_pairs_zero_dt(s: Seq<BodyModel>, cfg: SimConfig, i: int, n: int)
    requires
        n == s.len(),
    ensures
        outer_pairs(s, cfg, 0, i, n).len() == s.len(),
        forall|k: int|
            0 <= k < s.len() ==> (#[trigger] outer_pairs(s, cfg, 0, i, n)[k]).position
                == s[k].position && outer_pairs(s, cfg, 0, i, n)[k].velocity == s[k].velocity,
    decreases n - i,
{
    if !(i < 0 || i >= n) {
        lemma_inner_pairs_zero_dt(s, cfg, i, i + 1, n);
        lemma_outer_pairs_zero_dt(inner_pairs(s, cfg, 0, i, i + 1, n), cfg, i + 1, n);
    }
}

/// Two body sequences that agree on every body's position, radius and
/// density: everything the accumulator's force computation reads.
pub open spec fn same_statics(s1: Seq<BodyModel>, s2: Seq<BodyModel>) -> bool {
    &&& s1.len() == s2.len()
    &&& forall|k: int|
        0 <= k < s1.len() ==> (#[trigger] s1[k]).position == s2[k].position && s1[k].radius
            == s2[k].radius && s1[k].density == s2[k].density
}

/// A pair step never changes a position, a radius or a density.
proof fn lemma_pair_step_preserves_statics(s: Seq<BodyModel>, cfg: SimConfig, dt: int, i: int, j: int)
    requires
        0 <= i < s.len(),
        0 <= j < s.len(),
    ensures
        same_statics(pair_step(s, cfg, dt, i, j), s),
{
}

/// The inner pair run never changes a position, a radius or a density.
proof fn lemma_inner_pairs_preserve_statics(s: Seq<BodyModel>, cfg: SimConfig, dt: int, i: int, j: int, n: int)
    requires
        0 <= i < n,
        n == s.len(),
    ensures
        same_statics(inner_pairs(s, cfg, dt, i, j, n), s),
    decreases n - j,
{
    if !(j < 0 || j >= n) {
        lemma_pair_step_preserves_statics(s, cfg, dt, i, j);
        lemma_inner_pairs_preserve_statics(pair_step(s, cfg, dt, i, j), cfg, dt, i, j + 1, n);
    }
}

/// The outer pair run never changes a position, a radius or a density.
proof fn lemma_outer_pairs_preserve_statics(s: Seq<BodyModel>, cfg: SimConfig, dt: int, i: int, n: int)
    requires
        n == s.len(),
    ensures
        same_statics(outer_pairs(s, cfg, dt, i, n), s),
    decreases n - i,
{
    if !(i < 0 || i >= n) {
        lemma_inner_pairs_preserve_statics(s, cfg, dt, i, i + 1, n);
        lemma_outer_pairs_preserve_statics(inner_pairs(s, cfg, dt, i, i + 1, n), cfg, dt, i + 1, n);
    }
}

/// On two sequences with the same statics, a pair assigns the same
/// accelerations: the force computation reads nothing else.
proof fn lemma_pair_step_congruent(s1: Seq<BodyModel>, s2: Seq<BodyModel>, cfg: SimConfig, dt1: int, dt2: int, i: int, j: int)
    requires
        same_statics(s1, s2),
        0 <= i < s1.len(),
        0 <= j < s1.len(),
    ensures
        pair_step(s1, cfg, dt1, i, j)[i].acceleration == pair_step(s2, cfg, dt2, i, j)[i].acceleration,
        pair_step(s1, cfg, dt1, i, j)[j].acceleration == pair_step(s2, cfg, dt2, i, j)[j].acceleration,
{
    assert(dist_sq_of(s1[i].position, s1[j].position) == dist_sq_of(s2[i].position, s2[j].position));
    assert(pair_fum(s1, cfg, i, j) == pair_fum(s2, cfg, i, j));
    assert(pair_accel_first(s1, cfg, i, j) == pair_accel_first(s2, cfg, i, j));
    assert(pair_accel_second(s1, cfg, i, j) == pair_accel_second(s2, cfg, i, j));
}

/// Agreement on statics is symmetric.
proof fn lemma_same_statics_sym(a: Seq<BodyModel>, b: Seq<BodyModel>)
    requires
        same_statics(a, b),
    ensures
        same_statics(b, a),
{
    assert forall|k: int| 0 <= k < b.len() implies (#[trigger] b[k]).position == a[k].position
        && b[k].radius == a[k].radius && b[k].density == a[k].density by {
        assert(a[k].position == b[k].position);
    }
}

/// Agreement on statics is transitive.
proof fn lemma_same_statics_trans(a: Seq<BodyModel>, b: Seq<BodyModel>, c: Seq<BodyModel>)
    requires
        same_statics(a, b),
        same_statics(b, c),
    ensures
        same_statics(a, c),
{
    assert forall|k: int| 0 <= k < a.len() implies (#[trigger] a[k]).position == c[k].position
        && a[k].radius == c[k].radius && a[k].density == c[k].density by {
        assert(a[k].position == b[k].position);
        assert(b[k].position == c[k].position);
    }
}

/// A body that is neither `i` nor a partner still to come keeps its
/// stored acceleration through the inner pair run.
proof fn lemma_inner_acc_frame(s: Seq<BodyModel>, cfg: SimConfig, dt: int, i: int, j: int, n: int, k: int)
    requires
        0 <= i < n,
        n == s.len(),
        0 <= k < n,
        k != i,
        k < j,
    ensures
        inner_pairs(s, cfg, dt, i, j, n)[k].acceleration == s[k].acceleration,
    decreases n - j,
{
    if !(j < 0 || j >= n) {
        lemma_inner_acc_frame(pair_step(s, cfg, dt, i, j), cfg, dt, i, j + 1, n, k);
    }
}

/// On two sequences with the same statics, the inner pair run assigns the
/// same acceleration to body `i` (when a partner remains) and to every
/// partner from `j` on.
proof fn lemma_inner_acc_congruent(s1: Seq<BodyModel>, s2: Seq<BodyModel>, cfg: SimConfig, dt1: int, dt2: int, i: int, j: int, n: int, k: int)
    requires
        same_statics(s1, s2),
        0 <= i < n,
        i < j,
        n == s1.len(),
        0 <= k < n,
        (k == i && j < n) || j <= k,
    ensures
        inner_pairs(s1, cfg, dt1, i, j, n)[k].acceleration == inner_pairs(s2, cfg, dt2, i, j, n)[k].acceleration,
    decreases n - j,
{
    let t1 = pair_step(s1, cfg, dt1, i, j);
    let t2 = pair_step(s2, cfg, dt2, i, j);
    lemma_pair_step_congruent(s1, s2, cfg, dt1, dt2, i, j);
    lemma_pair_step_preserves_statics(s1, cfg, dt1, i, j);
    lemma_pair_step_preserves_statics(s2, cfg, dt2, i, j);
    lemma_same_statics_sym(t2, s2);
    lemma_same_statics_trans(t1, s1, s2);
    lemma_same_statics_trans(t1, s2, t2);
    if k == i {
        if j + 1 < n {
            lemma_inner_acc_congruent(t1, t2, cfg, dt1, dt2, i, j + 1, n, k);
        } else {
            reveal_with_fuel(inner_pairs, 2);
            assert(inner_pairs(s1, cfg, dt1, i, j, n) == t1);
            assert(inner_pairs(s2, cfg, dt2, i, j, n) == t2);
        }
    } else if k == j {
        lemma_inner_acc_frame(t1, cfg, dt1, i, j + 1, n, k);
        lemma_inner_acc_frame(t2, cfg, dt2, i, j + 1, n, k);
    } else {
        lemma_inner_acc_congruent(t1, t2, cfg, dt1, dt2, i, j + 1, n, k);
    }
}

/// A body whose pairs are all done keeps its stored acceleration through
/// the rest of the outer run.
proof fn lemma_outer_acc_frame(s: Seq<BodyModel>, cfg: SimConfig, dt: int, i: int, n: int, k: int)
    requires
        n == s.len(),
        0 <= k < n,
        k < i || (k == i && i == n - 1),
    ensures
        outer_pairs(s, cfg, dt, i, n)[k].acceleration == s[k].acceleration,
    decreases n - i,
{
    if !(i < 0 || i >= n) {
        let u = inner_pairs(s, cfg, dt, i, i + 1, n);
        lemma_inner_pairs_preserve_statics(s, cfg, dt, i, i + 1, n);
        if k < i {
            lemma_inner_acc_frame(s, cfg, dt, i, i + 1, n, k);
        } else {
            assert(u == s);
        }
        lemma_outer_acc_frame(u, cfg, dt, i + 1, n, k);
    }
}

/// On two sequences with the same statics, the outer pair run from `i`
/// assigns the same acceleration to every body that still meets a pair.
proof fn lemma_outer_acc_congruent(s1: Seq<BodyModel>, s2: Seq<BodyModel>, cfg: SimConfig, dt1: int, dt2: int, i: int, n: int, k: int)
    requires
        same_statics(s1, s2),
        n == s1.len(),
        0 <= i <= k < n,
        !(k == i && i == n - 1),
    ensures
        outer_pairs(s1, cfg, dt1, i, n)[k].acceleration == outer_pairs(s2, cfg, dt2, i, n)[k].acceleration,
    decreases n - i,
{
    let u1 = inner_pairs(s1, cfg, dt1, i, i + 1, n);
    let u2 = inner_pairs(s2, cfg, dt2, i, i + 1, n);
    lemma_inner_pairs_preserve_statics(s1, cfg, dt1, i, i + 1, n);
    lemma_inner_pairs_preserve_statics(s2, cfg, dt2, i, i + 1, n);
    lemma_same_statics_sym(u2, s2);
    lemma_same_statics_trans(u1, s1, s2);
    lemma_same_statics_trans(u1, s2, u2);
    if k == i {
        lemma_inner_acc_congruent(s1, s2, cfg, dt1, dt2, i, i + 1, n, k);
        lemma_outer_acc_frame(u1, cfg, dt1, i + 1, n, k);
        lemma_outer_acc_frame(u2, cfg, dt2, i + 1, n, k);
    } else if k == i + 1 && i + 1 == n - 1 {
        lemma_inner_acc_congruent(s1, s2, cfg, dt1, dt2, i, i + 1, n, k);
        lemma_outer_acc_frame(u1, cfg, dt1, i + 1, n, k);
        lemma_outer_acc_frame(u2, cfg, dt2, i + 1, n, k);
    } else {
        lemma_outer_acc_congruent(u1, u2, cfg, dt1, dt2, i + 1, n, k);
    }
}

/// A zero-duration tick is idempotent: running it a second time changes
/// nothing at all. The first run already stored the accelerations the
/// unchanged positions determine, and with `dt == 0` nothing else moves.
pub proof fn lemma_zero_dt_tick_idempotent(s: Seq<BodyModel>, cfg: SimConfig)
    ensures
        tick_state(tick_state(s, cfg, 0), cfg, 0) == tick_state(s, cfg, 0),
{
    let n = s.len() as int;
    let t = tick_state(s, cfg, 0);
    let t2 = tick_state(t, cfg, 0);
    lemma_zero_dt_tick_preserves_kinematics(s, cfg);
    lemma_zero_dt_tick_preserves_kinematics(t, cfg);
    lemma_integrated_zero_identity(s);
    lemma_integrated_zero_identity(t);
    assert(t == outer_pairs(s, cfg, 0, 0, n));
    assert(t2 == outer_pairs(t, cfg, 0, 0, n));
    lemma_outer_pairs_preserve_statics(s, cfg, 0, 0, n);
    lemma_outer_pairs_preserve_statics(t, cfg, 0, 0, n);
    if n <= 1 {
        reveal_with_fuel(outer_pairs, 3);
        reveal_with_fuel(inner_pairs, 2);
        assert(t == s);
    }
    assert forall|k: int| 0 <= k < n implies #[trigger] t2[k] == t[k] by {
        assert(t2[k].position == t[k].position && t2[k].velocity == t[k].velocity);
        assert(t2[k].radius == t[k].radius && t2[k].density == t[k].density);
        if n >= 2 {
            lemma_outer_acc_congruent(t, s, cfg, 0, 0, 0, n, k);
        }
        assert(t2[k].acceleration == t[k].acceleration);
    }
    assert(t2 =~= t);
}

/// With a zero timestep the integrator pass is the identity.
proof fn lemma_integrated_zero_identity(s: Seq<BodyModel>)
    ensures
        integrated(s, 0) == s,
{
    assert forall|k: int| 0 <= k < s.len() implies #[trigger] integrated(s, 0)[k] == s[k] by {
        let b = s[k];
        assert(b.velocity.x * 0 == 0 && b.velocity.y * 0 == 0 && b.velocity.z * 0 == 0
            && b.acceleration.x * 0 * 0 == 0 && b.acceleration.y * 0 * 0 == 0
            && b.acceleration.z * 0 * 0 == 0) by (nonlinear_arith);
        assert(pos_step(b, 0) == b);
    }
    assert(integrated(s, 0) =~= s);
}

/// A zero-duration tick changes no position and no velocity: this is what
/// a paused controller (whose effective timestep is zero) hands the
/// physics, and also why a `dt == 0` call of the integrator is idempotent.
pub proof fn lemma_zero_dt_tick_preserves_kinematics(s: Seq<BodyModel>, cfg: SimConfig)
    ensures
        tick_state(s, cfg, 0).len() == s.len(),
        forall|k: int|
            0 <= k < s.len() ==> (#[trigger] tick_state(s, cfg, 0)[k]).position == s[k].position
                && tick_state(s, cfg, 0)[k].velocity == s[k].velocity,
{
    assert forall|k: int| 0 <= k < s.len() implies #[trigger] integrated(s, 0)[k] == s[k] by {
        let b = s[k];
        assert(b.velocity.x * 0 == 0 && b.velocity.y * 0 == 0 && b.velocity.z * 0 == 0
            && b.acceleration.x * 0 * 0 == 0 && b.acceleration.y * 0 * 0 == 0
            && b.acceleration.z * 0 * 0 == 0) by (nonlinear_arith);
        assert(pos_step(b, 0) == b);
    }
    assert(integrated(s, 0) =~= s);
    lemma_outer_pairs_zero_dt(s, cfg, 0, s.len() as int);
}

/// When the inner loop has run out of partners the invariant carries over
/// to the next outer index.
proof fn lemma_mid_ok_outer_advance(s: Seq<BodyModel>, i: int, n: int)
    requires
        mid_ok(s, i, n, n),
        0 <= i < n,
    ensures
        mid_ok(s, i + 1, i + 2, n),
{
    assert forall|k: int| 0 <= k < n implies (#[trigger] s[k]).shape_ok()
        && s[k].acceleration.in_bounds(MAX_ACC as int) && s[k].velocity.in_bounds(
        MAX_VEL + touched(k, i + 1, i + 2, n) * VEL_STEP,
    ) by {
        assert(touched(k, i, n, n) <= touched(k, i + 1, i + 2, n));
    }
}

} // verus!
