//! An n-body gravity simulation core: a scalar force law, a pairwise force
//! accumulator with a near-contact collision policy, a velocity-Verlet
//! integrator, and a user-adjustable timescale controller.
//!
//! Every scalar is a fixed-point `i64` holding a whole number of subunits
//! (`units::SCALE` subunits make one simulation unit), so every contract
//! states the exact value a computation produces, divisions rounding toward
//! zero. The scale constants and the gravity constant are tunable
//! presentation parameters, not physical units: a scene picks values whose
//! products stay within the caps in `units`, and a tick asks (as a
//! precondition, checkable at run time) that the configuration admits
//! every body — `world::force_in_bounds` — which keeps all accelerations
//! within machine bounds without altering the force law itself.
//!
//! Design decisions a caller should know: a pair strictly inside its
//! contact threshold exerts zero force for the tick (the collision policy);
//! a coincident pair resolves to a zero direction, never a division by
//! zero; and the speed factor has no lower bound, so a negative speed runs
//! the simulation backwards.

pub mod body;
pub mod force;
pub mod spawn;
pub mod sqrt;
pub mod timescale;
pub mod units;
pub mod world;
