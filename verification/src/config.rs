//! Configuration constants of the simulation, fixed at startup.

use vstd::prelude::*;

verus! {

/// Gravitational constant `G` of the pairwise force law.
pub const GRAVITY: u64 = 10;

/// Simulation ticks per second of wall-clock time.  Pacing only: one call of
/// the three integrator phases advances the world by exactly one tick.
pub const TIME_STEP: u64 = 60;

/// Normalization constant shared by the position update (which divides the
/// per-tick step by it) and the orbit initializer (which multiplies the
/// orbit radius by it).  The two must use the same value, or freshly spawned
/// orbits drift from their very first tick.
pub const SIMULATION_CONSTANT: i64 = 4;

/// `2 * pi` in raw fixed-point units.
pub const TWO_PI_FX: i64 = 411774;

/// `pi` in raw fixed-point units.
pub const PI_FX: i64 = 205887;

/// `pi / 2` in raw fixed-point units.
pub const HALF_PI_FX: i64 = 102943;

/// `4 * pi` in raw fixed-point units, used by the radius derivation.
pub const FOUR_PI_FX: u64 = 823549;

/// Pairs separated by more than this raw distance contribute no
/// acceleration.  The cutoff keeps the cube of the distance inside `u128`;
/// at such separations the quotient of the force law is at most a few raw
/// steps, below one part in ten thousand of a world unit.
pub const DIST_CAP: u128 = 6981463658331;

} // verus!
