use vstd::prelude::*;

verus! {

/// Fixed-point scale: a coordinate of `UNIT` stands for one world unit.
pub const UNIT: i64 = 1000;

/// Largest magnitude of a coordinate that positions and velocities may take.
pub const COORD_LIMIT: i64 = 0x8000_0000;

/// A 2D vector in fixed-point coordinates.
#[derive(Clone, Copy, Debug, PartialEq, Eq, Structural)]
pub struct Vec2i {
    pub x: i64,
    pub y: i64,
}

impl Vec2i {
    /// Whether both coordinates lie within `COORD_LIMIT`.
    pub open spec fn in_range(self) -> bool {
        -COORD_LIMIT <= self.x <= COORD_LIMIT && -COORD_LIMIT <= self.y <= COORD_LIMIT
    }

    pub fn new(x: i64, y: i64) -> (r: Vec2i)
        ensures
            r.x == x,
            r.y == y,
    {
        Vec2i { x, y }
    }

    pub open spec fn neg_spec(self) -> Vec2i {
        Vec2i { x: -self.x as i64, y: -self.y as i64 }
    }

    /// The opposite vector.
    pub fn neg(self) -> (r: Vec2i)
        requires
            self.in_range(),
        ensures
            r == self.neg_spec(),
            r.in_range(),
    {
        Vec2i { x: -self.x, y: -self.y }
    }
}

/// Dot product, over unbounded integers.
pub open spec fn dot(a: Vec2i, b: Vec2i) -> int {
    a.x * b.x + a.y * b.y
}

} // verus!
