//! Plane vectors in fixed-point coordinates, and their ghost model.

use vstd::prelude::*;

verus! {

/// An executable plane vector. Coordinates are fixed-point `i64`; the
/// caller picks the unit.
#[derive(Clone, Copy, Debug, PartialEq, Eq, Structural)]
pub struct Vec2 {
    pub x: i64,
    pub y: i64,
}

/// The mathematical model of a plane vector: a pair of unbounded integers.
pub struct V2M {
    pub x: int,
    pub y: int,
}

impl View for Vec2 {
    type V = V2M;

    open spec fn view(&self) -> V2M {
        V2M { x: self.x as int, y: self.y as int }
    }
}

impl Vec2 {
    pub fn new(x: i64, y: i64) -> (r: Vec2)
        ensures
            r@ == (V2M { x: x as int, y: y as int }),
    {
        Vec2 { x, y }
    }
}

/// Squared Euclidean distance between two model points.
pub open spec fn dist2(a: V2M, b: V2M) -> int {
    (b.x - a.x) * (b.x - a.x) + (b.y - a.y) * (b.y - a.y)
}

} // verus!
