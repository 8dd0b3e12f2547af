//! Integer world positions.
//!
//! The engine works in floating-point pixels; the core only ever compares
//! and offsets positions, so it keeps them as whole world units and lets the
//! host round at the boundary.

use vstd::prelude::*;

verus! {

/// Coordinates are kept within this magnitude so that squared distances and
/// component differences never overflow.
pub const COORD_LIMIT: i64 = 0x4000_0000;

#[derive(Debug, Clone, Copy, PartialEq, Eq, Structural)]
pub struct Vec2 {
    pub x: i64,
    pub y: i64,
}

impl Vec2 {
    pub open spec fn in_bounds(self) -> bool {
        -COORD_LIMIT <= self.x <= COORD_LIMIT && -COORD_LIMIT <= self.y <= COORD_LIMIT
    }

    pub fn new(x: i64, y: i64) -> (r: Vec2)
        ensures
            r == (Vec2 { x, y }),
    {
        Vec2 { x, y }
    }

    /// Squared euclidean distance, exact in integer arithmetic.
    pub fn dist_sq(self, other: Vec2) -> (r: u64)
        requires
            self.in_bounds(),
            other.in_bounds(),
        ensures
            r == (self.x - other.x) * (self.x - other.x) + (self.y - other.y) * (self.y
                - other.y),
    {
        let dx = self.x - other.x;
        let dy = self.y - other.y;
        proof {
            assert(dx * dx <= 0x8000_0000i64 * 0x8000_0000i64 && dx * dx >= 0) by (nonlinear_arith)
                requires
                    -0x8000_0000i64 <= dx <= 0x8000_0000i64,
            ;
            assert(dy * dy <= 0x8000_0000i64 * 0x8000_0000i64 && dy * dy >= 0) by (nonlinear_arith)
                requires
                    -0x8000_0000i64 <= dy <= 0x8000_0000i64,
            ;
        }
        (dx * dx) as u64 + (dy * dy) as u64
    }
}

} // verus!
