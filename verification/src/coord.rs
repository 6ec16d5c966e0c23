//! Plane coordinates of board positions.

use vstd::prelude::*;

verus! {

/// The integer type of one coordinate axis.
pub type CoordAxis = i16;

/// A position on the board plane.
#[derive(Clone, Copy, PartialEq, Eq, Structural, Debug, Hash)]
pub struct Coord {
    pub x: CoordAxis,
    pub y: CoordAxis,
}

impl Coord {
    pub fn new(x: CoordAxis, y: CoordAxis) -> (r: Coord)
        ensures
            r == (Coord { x, y }),
    {
        Coord { x, y }
    }
}

} // verus!
