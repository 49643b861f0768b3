//! Two-dimensional vectors of raw fixed-point coordinates.

use vstd::prelude::*;
use crate::fxp;

verus! {

/// A 2D vector; each coordinate is a raw fixed-point value (see `fxp::FX`).
#[derive(Clone, Copy, PartialEq, Eq, Structural, Debug)]
pub struct Vec2Fx {
    pub x: i64,
    pub y: i64,
}

impl Vec2Fx {
    /// Both coordinates are zero.
    pub open spec fn is_zero(self) -> bool {
        self.x == 0 && self.y == 0
    }

    /// The zero vector.
    pub fn zero() -> (r: Vec2Fx)
        ensures
            r.is_zero(),
    {
        Vec2Fx { x: 0, y: 0 }
    }

    /// Componentwise saturating addition.
    pub fn sat_add(self, other: Vec2Fx) -> (r: Vec2Fx)
        ensures
            r.x as int == fxp::i64_sat(self.x as int + other.x as int),
            r.y as int == fxp::i64_sat(self.y as int + other.y as int),
    {
        Vec2Fx { x: fxp::sat_add(self.x, other.x), y: fxp::sat_add(self.y, other.y) }
    }
}

} // verus!
