//! Positions and displacements.

use vstd::prelude::*;

verus! {

/// A point or a displacement on the integer plane.
#[derive(Debug, Default, PartialEq, Eq, Structural, Clone, Copy)]
pub struct Position {
    pub x: i32,
    pub y: i32,
}

impl Position {
    /// The position with the given coordinates.
    pub fn new(x: i32, y: i32) -> (res: Self)
        ensures
            res == (Position { x, y }),
    {
        Position { x, y }
    }

    /// The position reached from `self` by the displacement `other`. Each coordinate is
    /// added on its own and wraps around at the limits of `i32`.
    pub open spec fn plus(self, other: Position) -> Position {
        Position { x: self.x.wrapping_add(other.x), y: self.y.wrapping_add(other.y) }
    }

    /// Moves `self` by the displacement `other`.
    pub fn add_assign(&mut self, other: Position)
        ensures
            *final(self) == old(self).plus(other),
    {
        self.x = self.x.wrapping_add(other.x);
        self.y = self.y.wrapping_add(other.y);
    }
}

/// Where no coordinate leaves the range of `i32`, moving by a displacement is plain vector
/// addition.
pub proof fn lemma_plus_is_vector_addition(p: Position, d: Position)
    requires
        i32::MIN <= p.x + d.x <= i32::MAX,
        i32::MIN <= p.y + d.y <= i32::MAX,
    ensures
        p.plus(d).x == p.x + d.x,
        p.plus(d).y == p.y + d.y,
{
}

} // verus!
