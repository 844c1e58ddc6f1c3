use nbody_sim::force::calculate_force;
use nbody_sim::units::SCALE;

#[test]
fn force_is_symmetric_in_the_masses() {
    let d = 3 * SCALE;
    assert_eq!(calculate_force(1_000, 2_000, d), calculate_force(2_000, 1_000, d));
    let d2 = 17 * SCALE + 123;
    assert_eq!(
        calculate_force(999_999_999, 7, d2),
        calculate_force(7, 999_999_999, d2)
    );
}

#[test]
fn force_has_an_exact_value_beyond_one_unit() {
    // 66_743_000 * 1000 * 2000 / (2 * SCALE)^2 = 133_486_000_000_000 / 4e12 = 33.
    assert_eq!(calculate_force(1_000, 2_000, 2 * SCALE), 33);
    // 66_743_000 * 1e9 * 1e9 / (SCALE + 1)^2: just over the floor the full law applies.
    let expected = 66_743_000u128 * 1_000_000_000 * 1_000_000_000
        / ((SCALE as u128 + 1) * (SCALE as u128 + 1));
    assert_eq!(
        calculate_force(1_000_000_000, 1_000_000_000, SCALE + 1) as u128,
        expected
    );
}

#[test]
fn force_is_zero_at_or_below_one_unit() {
    assert_eq!(calculate_force(1_000_000_000, 1_000_000_000, SCALE), 0);
    assert_eq!(calculate_force(1_000_000_000, 1_000_000_000, SCALE / 2), 0);
    assert_eq!(calculate_force(1_000_000_000, 1_000_000_000, 0), 0);
    assert_eq!(calculate_force(5, 5, 1), 0);
}

#[test]
fn force_never_grows_with_distance() {
    let mut prev = calculate_force(500_000, 400_000, SCALE + 1);
    for k in 2..60i64 {
        let cur = calculate_force(500_000, 400_000, k * SCALE);
        assert!(cur <= prev, "force grew from {} to {} at {} units", prev, cur, k);
        prev = cur;
    }
}
