//! Fixed-point scalars and the exact arithmetic the simulation is built on.

use vstd::prelude::*;

verus! {

/// Number of fixed-point subunits in one simulation unit. Every scalar in
/// the crate (positions, velocities, radii, densities, time steps, the speed
/// factor) is an `i64` count of these subunits.
pub const SCALE: i64 = 1_000_000;

/// `SCALE * SCALE`: the subunit count of one squared unit.
pub const SCALE_SQ: i64 = 1_000_000_000_000;

/// Largest position component (in subunits) a well-formed body may have.
pub const MAX_POS: i64 = 1_000_000_000_000_000;

/// Largest velocity component (in subunits) a well-formed body may have.
pub const MAX_VEL: i64 = 100_000_000_000_000;

/// Largest position component that can arise between the integrator pass
/// (which may carry a body beyond `MAX_POS` within one tick) and the
/// accumulator pass that follows it.
pub const MAX_MID_POS: i64 = 1_000_000_000_000_000_000;

/// Largest acceleration component (in subunits) a well-formed body may have.
/// The accumulator never stores a component above this bound: the
/// admission condition `world::force_in_bounds` keeps every pair's force
/// scalar times the partner's mass at or below it, at every separation the
/// collision policy does not zero.
pub const MAX_ACC: i64 = 1_000_000_000_000;

/// Largest magnitude (in subunits) accepted for one tick's duration.
pub const MAX_DT: i64 = 1_000_000_000;

/// Largest mass (in mass units) the scalar force law accepts for either
/// argument: the machine limit under which its value just beyond the
/// one-unit floor still fits an `i64`.
pub const MAX_MASS: i64 = 300_000_000_000;

/// Largest radius (in subunits) a well-formed body may have.
pub const MAX_RADIUS: i64 = 5_000_000_000;

/// Largest density (in subunits) a well-formed body may have.
pub const MAX_DENSITY: i64 = 10_000_000;

/// Largest speed factor magnitude (in subunits) the timescale controller
/// accepts when adjusting or applying the speed.
pub const MAX_SPEED: i64 = 1_000_000_000_000;

/// Largest gravity constant (in subunits) a well-formed configuration may
/// carry.
pub const MAX_GRAVITY: i64 = 1_000_000_000_000;

/// Largest size or distance scale factor (in subunits) a well-formed
/// configuration may carry.
pub const MAX_SCALE_FACTOR: i64 = 1_000_000_000;

/// Cap on the force-law numerator `gravity * size_scale^2 *
/// distance_scale^2` of a well-formed configuration, keeping every
/// intermediate product inside 128 bits.
pub const MAX_FORCE_PRODUCT: u128 = 1_000_000_000_000_000_000_000_000_000_000;

/// Largest number of bodies a world may simulate. Together with
/// `VEL_STEP` it bounds how far a velocity component can drift during one
/// accumulation pass.
pub const MAX_BODIES: usize = 1000;

/// Largest change one pairwise half-step can make to a velocity component:
/// `2 * MAX_ACC * MAX_DT / (2 * SCALE)`.
pub const VEL_STEP: i64 = 1_000_000_000_000_000;

/// Largest velocity component that can arise while an accumulation pass is
/// under way: each body takes part in at most `MAX_BODIES - 1` pairs.
pub const MAX_MID_VEL: i64 = MAX_VEL + 999 * VEL_STEP;

/// Division rounding toward zero, the rounding used by every scalar helper
/// in this crate. On a nonnegative dividend it agrees with Euclidean
/// division; on a negative one it negates the quotient of the magnitudes.
pub open spec fn div_tz(a: int, d: int) -> int {
    if a >= 0 {
        a / d
    } else {
        -((-a) / d)
    }
}

/// A wide intermediate value divided by `d`, rounded toward zero.
pub fn wide_div_tz(p: i128, d: i64) -> (r: i64)
    requires
        1 <= d,
        -(i128::MAX as int) <= p,
        -(i64::MAX as int) <= div_tz(p as int, d as int) <= i64::MAX as int,
    ensures
        r as int == div_tz(p as int, d as int),
{
    if p >= 0 {
        let q: u128 = (p as u128) / (d as u128);
        assert(q == div_tz(p as int, d as int));
        q as i64
    } else {
        let m: u128 = ((-p) as u128) / (d as u128);
        assert(m == -div_tz(p as int, d as int));
        -(m as i64)
    }
}

/// The product `a * b` divided by `d`, rounded toward zero.
pub fn mul_div_tz(a: i64, b: i64, d: i64) -> (r: i64)
    requires
        1 <= d,
        -(i64::MAX as int) <= div_tz(a * b, d as int) <= i64::MAX as int,
    ensures
        r as int == div_tz(a * b, d as int),
{
    proof {
        assert((a as int) * (b as int) < 0x8000_0000_0000_0000_0000_0000_0000_0000int
            && -0x8000_0000_0000_0000_0000_0000_0000_0000int < (a as int) * (b as int))
            by (nonlinear_arith)
            requires
                -0x8000_0000_0000_0000i64 <= a <= 0x7fff_ffff_ffff_ffffi64,
                -0x8000_0000_0000_0000i64 <= b <= 0x7fff_ffff_ffff_ffffi64,
        ;
    }
    let p: i128 = (a as i128) * (b as i128);
    wide_div_tz(p, d)
}

/// A dividend bounded by `bound` has its toward-zero quotient bounded by
/// `bound / d`.
pub proof fn lemma_div_tz_bound(a: int, d: int, bound: int)
    requires
        1 <= d,
        -bound <= a <= bound,
    ensures
        -(bound / d) <= div_tz(a, d) <= bound / d,
{
    if a >= 0 {
        vstd::arithmetic::div_mod::lemma_div_pos_is_pos(a, d);
        vstd::arithmetic::div_mod::lemma_div_is_ordered(a, bound, d);
    } else {
        vstd::arithmetic::div_mod::lemma_div_pos_is_pos(-a, d);
        vstd::arithmetic::div_mod::lemma_div_is_ordered(-a, bound, d);
    }
}

/// A dividend bounded by `d * m` has its toward-zero quotient bounded by
/// `m` itself.
pub proof fn lemma_div_tz_le_factor(a: int, d: int, m: int)
    requires
        1 <= d,
        0 <= m,
        -(d * m) <= a <= d * m,
    ensures
        -m <= div_tz(a, d) <= m,
{
    assert(0 <= d * m) by (nonlinear_arith)
        requires
            1 <= d,
            0 <= m,
    ;
    lemma_div_tz_bound(a, d, d * m);
    vstd::arithmetic::div_mod::lemma_div_multiples_vanish(m, d);
}

/// If `a * m <= cap * d` then `(a / d) * m <= cap`: dividing one factor
/// before multiplying cannot overshoot a cap the undivided product obeys.
pub proof fn lemma_div_mul_le_cap(a: int, d: int, m: int, cap: int)
    requires
        0 <= a,
        1 <= d,
        0 <= m,
        0 <= cap,
        a * m <= cap * d,
    ensures
        (a / d) * m <= cap,
{
    vstd::arithmetic::div_mod::lemma_fundamental_div_mod(a, d);
    vstd::arithmetic::div_mod::lemma_mod_bound(a, d);
    vstd::arithmetic::div_mod::lemma_div_pos_is_pos(a, d);
    assert((a / d) * m * d <= cap * d) by (nonlinear_arith)
        requires
            a == d * (a / d) + a % d,
            0 <= a % d,
            0 <= m,
            a * m <= cap * d,
    ;
    assert((a / d) * m <= cap) by (nonlinear_arith)
        requires
            1 <= d,
            (a / d) * m * d <= cap * d,
    ;
}

/// The rounded-up quotient recovers the dividend: `((a + g - 1) / g) * g`
/// is at least `a`.
pub proof fn lemma_ceil_div_covers(a: int, g: int)
    requires
        0 <= a,
        1 <= g,
    ensures
        0 <= (a + g - 1) / g,
        ((a + g - 1) / g) * g >= a,
{
    vstd::arithmetic::div_mod::lemma_fundamental_div_mod(a + g - 1, g);
    vstd::arithmetic::div_mod::lemma_mod_bound(a + g - 1, g);
    vstd::arithmetic::div_mod::lemma_div_pos_is_pos(a + g - 1, g);
    assert(((a + g - 1) / g) * g >= a) by (nonlinear_arith)
        requires
            a + g - 1 == g * ((a + g - 1) / g) + (a + g - 1) % g,
            (a + g - 1) % g < g,
    ;
}

/// For a positive factor `b`, the product `a * b` stays within `cap`
/// exactly when `a` stays within `cap / b`: the run-time guard that lets a
/// capped product be tested before it is computed.
pub proof fn lemma_mul_le_cap_iff(a: int, b: int, cap: int)
    requires
        0 <= a,
        1 <= b,
        0 <= cap,
    ensures
        (a * b <= cap) <==> (a <= cap / b),
{
    if a <= cap / b {
        assert(a * b <= (cap / b) * b) by (nonlinear_arith)
            requires
                a <= cap / b,
                1 <= b,
        ;
        vstd::arithmetic::div_mod::lemma_fundamental_div_mod(cap, b);
        vstd::arithmetic::div_mod::lemma_mod_bound(cap, b);
        assert((cap / b) * b <= cap) by (nonlinear_arith)
            requires
                cap == b * (cap / b) + cap % b,
                0 <= cap % b,
        ;
    }
    if a * b <= cap {
        assert(0 <= a * b) by (nonlinear_arith)
            requires
                0 <= a,
                1 <= b,
        ;
        vstd::arithmetic::div_mod::lemma_div_is_ordered(a * b, cap, b);
        vstd::arithmetic::div_mod::lemma_div_by_multiple(a, b);
    }
}

} // verus!
