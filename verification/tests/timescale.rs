use nbody_sim::timescale::GameSpeed;
use nbody_sim::units::SCALE;

#[test]
fn new_controller_runs_at_unit_speed() {
    let gs = GameSpeed::new();
    assert_eq!(gs.speed, SCALE);
    assert_eq!(gs.last_speed, SCALE);
}

#[test]
fn pause_saves_and_resume_restores_the_exact_speed() {
    let mut gs = GameSpeed::new();
    gs.change_speed(true, false, false, true, 250_000);
    let before = gs.speed;
    assert_ne!(before, 0);
    gs.toggle_pause();
    assert_eq!(gs.speed, 0);
    assert_eq!(gs.last_speed, before);
    assert_eq!(gs.effective_dt(16_667), 0);
    gs.toggle_pause();
    assert_eq!(gs.speed, before);
}

#[test]
fn speed_reset_snaps_back_to_exactly_one() {
    let mut gs = GameSpeed::new();
    gs.change_speed(true, false, false, true, 900_000);
    assert_ne!(gs.speed, SCALE);
    gs.change_speed(false, false, true, false, 1_000);
    assert_eq!(gs.speed, SCALE);
    gs.change_speed(false, true, false, true, 700_000);
    gs.change_speed(true, true, true, true, 123_456);
    assert_eq!(gs.speed, SCALE);
}

#[test]
fn speed_nudges_move_by_the_scaled_step() {
    let mut gs = GameSpeed::new();
    // Fast step is 10 per second: over 0.5 s the speed rises by 5.
    gs.change_speed(true, false, false, true, 500_000);
    assert_eq!(gs.speed, 6 * SCALE);
    // Plain step is 1 per second: over 0.25 s the speed falls by 0.25.
    gs.change_speed(false, true, false, false, 250_000);
    assert_eq!(gs.speed, 5_750_000);
}

#[test]
fn effective_dt_scales_wall_time_exactly() {
    let gs = GameSpeed::new();
    // 16_667 * 2_332_800_000 * 1_000_000 / (SCALE * SCALE) = 38_880_777 (floor).
    assert_eq!(gs.effective_dt(16_667), 38_880_777);
    let mut paused = GameSpeed::new();
    paused.toggle_pause();
    assert_eq!(paused.effective_dt(16_667), 0);
    // A negative speed runs time backwards.
    let back = GameSpeed { speed: -SCALE, last_speed: SCALE };
    assert_eq!(back.effective_dt(16_667), -38_880_777);
}
