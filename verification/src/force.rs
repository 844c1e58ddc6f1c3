//! The scalar gravitational force law.

use vstd::prelude::*;
use vstd::arithmetic::div_mod::lemma_div_is_ordered_by_denominator;
use crate::units::{MAX_MASS, SCALE, SCALE_SQ};

verus! {

/// Numerator of the gravitational constant after fixed-point scaling:
/// `6.6743e-11` carries a factor of `SCALE` to land in subunits, and the
/// squared-distance denominator contributes another `SCALE * SCALE`, so the
/// combined integer numerator is `66_743 * SCALE * SCALE * SCALE / 1e15`.
pub const GRAVITY_NUM: i64 = 66_743_000;

/// The exact numerator of the force law for masses `m1` and `m2`.
pub open spec fn force_num(m1: int, m2: int) -> int {
    GRAVITY_NUM * m1 * m2
}

/// The force law's exact fixed-point value: zero at separations of one unit
/// or less (the numerical floor that guards the singularity), and otherwise
/// the gravitational numerator divided by the squared distance.
pub open spec fn force_value(m1: int, m2: int, distance: int) -> int {
    if distance > SCALE {
        force_num(m1, m2) / (distance * distance)
    } else {
        0
    }
}

/// Gravitational force magnitude between masses `m1` and `m2` (in mass
/// units) at the given separation (in subunits).
pub fn calculate_force(mass1: i64, mass2: i64, distance: i64) -> (r: i64)
    requires
        0 <= mass1 <= MAX_MASS,
        0 <= mass2 <= MAX_MASS,
        0 <= distance,
    ensures
        r as int == force_value(mass1 as int, mass2 as int, distance as int),
        distance <= SCALE ==> r == 0,
{
    if distance > SCALE {
        proof {
            assert(GRAVITY_NUM * (mass1 as int) * (mass2 as int)
                <= 6_006_870_000_000_000_000_000_000_000_000int) by (nonlinear_arith)
                requires
                    0 <= mass1 <= MAX_MASS,
                    0 <= mass2 <= MAX_MASS,
            ;
            assert(0 <= GRAVITY_NUM * (mass1 as int) * (mass2 as int)) by (nonlinear_arith)
                requires
                    0 <= mass1,
                    0 <= mass2,
            ;
            assert(SCALE_SQ < (distance as int) * (distance as int)
                < 0x1_0000_0000_0000_0000_0000_0000_0000_0000int) by (nonlinear_arith)
                requires
                    SCALE < distance <= 0x7fff_ffff_ffff_ffffi64,
            ;
        }
        let num: u128 = (GRAVITY_NUM as u128) * (mass1 as u128) * (mass2 as u128);
        let den: u128 = (distance as u128) * (distance as u128);
        let q: u128 = num / den;
        proof {
            lemma_div_is_ordered_by_denominator(num as int, SCALE_SQ as int, den as int);
        }
        q as i64
    } else {
        0
    }
}

/// The force law is symmetric in its two masses.
pub proof fn lemma_force_symmetric(m1: int, m2: int, distance: int)
    ensures
        force_value(m1, m2, distance) == force_value(m2, m1, distance),
{
    assert(GRAVITY_NUM * m1 * m2 == GRAVITY_NUM * m2 * m1) by (nonlinear_arith);
}

/// Beyond the one-unit floor the force never grows with distance: the
/// fixed-point value at the farther separation is at most the value at the
/// nearer one. (Strict decrease holds of the exact quotients, see
/// `lemma_force_exact_strictly_decreasing`; rounding toward zero can map two
/// nearby separations to the same subunit count.)
pub proof fn lemma_force_antitone(m1: int, m2: int, d1: int, d2: int)
    requires
        0 <= m1,
        0 <= m2,
        SCALE < d1 <= d2,
    ensures
        force_value(m1, m2, d2) <= force_value(m1, m2, d1),
{
    assert(0 <= GRAVITY_NUM * m1 * m2) by (nonlinear_arith)
        requires
            0 <= m1,
            0 <= m2,
    ;
    assert(1 <= d1 * d1 <= d2 * d2) by (nonlinear_arith)
        requires
            0 < d1 <= d2,
    ;
    lemma_div_is_ordered_by_denominator(GRAVITY_NUM * m1 * m2, d1 * d1, d2 * d2);
}

/// The exact (unrounded) force is strictly decreasing in the separation:
/// for positive masses and `SCALE < d1 < d2`, the rational values
/// `force_num / d1^2 > force_num / d2^2`, stated here in cross-multiplied
/// form to stay within the integers.
pub proof fn lemma_force_exact_strictly_decreasing(m1: int, m2: int, d1: int, d2: int)
    requires
        1 <= m1,
        1 <= m2,
        SCALE < d1 < d2,
    ensures
        force_num(m1, m2) * (d1 * d1) < force_num(m1, m2) * (d2 * d2),
{
    assert(GRAVITY_NUM * m1 * m2 * (d1 * d1) < GRAVITY_NUM * m1 * m2 * (d2 * d2))
        by (nonlinear_arith)
        requires
            1 <= m1,
            1 <= m2,
            0 < d1 < d2,
    ;
}

/// At any separation of one unit or less, including zero, the force is
/// exactly zero.
pub proof fn lemma_force_zero_within_unit(m1: int, m2: int, distance: int)
    requires
        distance <= SCALE,
    ensures
        force_value(m1, m2, distance) == 0,
{
}

} // verus!
