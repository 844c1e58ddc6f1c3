//! The timescale controller: a user-adjustable speed factor that scales
//! every wall-clock tick into the effective timestep the physics consumes,
//! with pause/resume and a reset.

use vstd::prelude::*;
use crate::units::{div_tz, wide_div_tz, MAX_DT, MAX_SPEED, SCALE, SCALE_SQ};

verus! {

/// Base conversion from wall-clock subunits to simulated subunits: one
/// second of wall time advances the simulation by this many subunits before
/// the user speed factor is applied.
pub const TIME_SPEED: i64 = 2_332_800_000;

/// The speed state: `speed` is the current factor (in subunits, so `SCALE`
/// means unscaled time), `last_speed` remembers the factor a pause should
/// restore. A non-positive `speed` counts as paused; a negative one is
/// accepted and runs the simulation backwards.
#[derive(Clone, Copy, PartialEq, Eq, Structural, Debug)]
pub struct GameSpeed {
    pub speed: i64,
    pub last_speed: i64,
}

/// The state `toggle_pause` leaves behind: running becomes paused with the
/// old factor saved; paused becomes running at the saved factor.
pub open spec fn toggled(s: GameSpeed) -> GameSpeed {
    if s.speed > 0 {
        GameSpeed { speed: 0, last_speed: s.speed }
    } else {
        GameSpeed { speed: s.last_speed, last_speed: s.last_speed }
    }
}

/// The speed `change_speed` leaves behind: an optional decrease and an
/// optional increase, each by the per-second step (tenfold when `fast`)
/// scaled by the elapsed wall time, and then an optional reset to exactly
/// one.
pub open spec fn nudged(speed: int, increase: bool, decrease: bool, reset: bool, fast: bool, wall_dt: int) -> int {
    let step: int = if fast {
        10 * SCALE
    } else {
        SCALE as int
    };
    let lowered: int = if decrease {
        speed - div_tz(step * wall_dt, SCALE as int)
    } else {
        speed
    };
    let raised: int = if increase {
        lowered + div_tz(step * wall_dt, SCALE as int)
    } else {
        lowered
    };
    if reset {
        SCALE as int
    } else {
        raised
    }
}

impl GameSpeed {
    /// The startup state: unscaled time, with the same value remembered.
    pub fn new() -> (r: GameSpeed)
        ensures
            r == (GameSpeed { speed: SCALE, last_speed: SCALE }),
    {
        GameSpeed { speed: SCALE, last_speed: SCALE }
    }

    /// Pauses a running simulation, remembering the current factor, or
    /// restores the remembered factor when already paused.
    pub fn toggle_pause(&mut self)
        ensures
            *final(self) == toggled(*old(self)),
    {
        if self.speed > 0 {
            self.last_speed = self.speed;
            self.speed = 0;
        } else {
            self.speed = self.last_speed;
        }
    }

    /// Adjusts the speed factor from held inputs over `wall_dt` of wall
    /// time: decrease and increase at the per-second step (tenfold when
    /// `fast`), and a reset that snaps the factor back to exactly one.
    pub fn change_speed(&mut self, increase: bool, decrease: bool, reset: bool, fast: bool, wall_dt: i64)
        requires
            -MAX_SPEED <= old(self).speed <= MAX_SPEED,
            -MAX_DT <= wall_dt <= MAX_DT,
        ensures
            final(self).speed as int == nudged(
                old(self).speed as int,
                increase,
                decrease,
                reset,
                fast,
                wall_dt as int,
            ),
            final(self).last_speed == old(self).last_speed,
            reset ==> final(self).speed == SCALE,
    {
        let step: i64 = if fast {
            10 * SCALE
        } else {
            SCALE
        };
        proof {
            assert(-100_000_000_000_000_000int <= (step as int) * (wall_dt as int)
                <= 100_000_000_000_000_000int) by (nonlinear_arith)
                requires
                    0 < step <= 10 * SCALE,
                    -MAX_DT <= wall_dt <= MAX_DT,
            ;
        }
        let delta: i64 = crate::units::mul_div_tz(step, wall_dt, SCALE);
        proof {
            assert(-100_000_000_000int <= delta <= 100_000_000_000int);
        }
        if decrease {
            self.speed = self.speed - delta;
        }
        if increase {
            self.speed = self.speed + delta;
        }
        if reset {
            self.speed = SCALE;
        }
    }

    /// The effective timestep for `wall_dt` of wall time: the wall duration
    /// scaled by the base conversion and by the current speed factor. A
    /// paused controller always yields zero.
    pub fn effective_dt(&self, wall_dt: i64) -> (dt: i64)
        requires
            -MAX_SPEED <= self.speed <= MAX_SPEED,
            -MAX_DT <= wall_dt <= MAX_DT,
        ensures
            dt as int == div_tz(wall_dt * TIME_SPEED * self.speed, SCALE_SQ as int),
            self.speed == 0 ==> dt == 0,
    {
        proof {
            assert(-3_000_000_000_000_000_000_000_000_000_000int
                <= (wall_dt as int) * (TIME_SPEED as int) * (self.speed as int)
                <= 3_000_000_000_000_000_000_000_000_000_000int) by (nonlinear_arith)
                requires
                    -MAX_DT <= wall_dt <= MAX_DT,
                    -MAX_SPEED <= self.speed <= MAX_SPEED,
            ;
        }
        let p: i128 = (wall_dt as i128) * (TIME_SPEED as i128) * (self.speed as i128);
        wide_div_tz(p, SCALE_SQ)
    }
}

/// Pausing and resuming is a round trip: toggling a running controller
/// twice restores the speed factor it started with, exactly.
pub proof fn lemma_pause_resume_round_trip(s: GameSpeed)
    requires
        s.speed > 0,
    ensures
        toggled(toggled(s)).speed == s.speed,
{
}

} // verus!
