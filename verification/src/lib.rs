//! Core of a 2D N-body gravity simulation.
//!
//! Bodies are point masses with a position, a velocity and a per-tick
//! acceleration accumulator.  Every quantity is held in signed 64-bit
//! fixed-point arithmetic (see `fxp`), so every step of the integrator has an
//! exact, machine-checked contract.  The simulation advances in fixed ticks:
//! pairwise gravitational acceleration, then velocity, then position.

pub mod bodies;
pub mod config;
pub mod fxp;
pub mod laws;
pub mod orbit;
pub mod vec2;
