use vstd::prelude::*;

verus! {

/// Largest magnitude a coordinate may have so that every product formed by the
/// intersection arithmetic fits in `i128`.
pub const COORD_LIMIT: i32 = 0x4000_0000;

/// A point, or a direction vector, on the integer grid of the world.
#[derive(Clone, Copy, Debug, PartialEq, Eq, Structural)]
pub struct Point {
    pub x: i32,
    pub y: i32,
}

impl Point {
    pub open spec fn in_range(self) -> bool {
        -COORD_LIMIT <= self.x <= COORD_LIMIT && -COORD_LIMIT <= self.y <= COORD_LIMIT
    }

    pub fn new(x: i32, y: i32) -> (r: Point)
        ensures
            r.x == x,
            r.y == y,
    {
        Point { x, y }
    }
}

} // verus!
