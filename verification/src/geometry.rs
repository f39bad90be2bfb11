use vstd::prelude::*;

verus! {

/// A cell position on the playing field: column `x`, row `y`, with row 0 at
/// the bottom. A coordinate is only meaningful on the field when it lies
/// within the matrix bounds; bounds checks are the matrix's business.
#[derive(Clone, Copy, Debug, PartialEq, Eq, Structural)]
pub struct Coordinate {
    pub x: usize,
    pub y: usize,
}

impl Coordinate {
    pub fn new(x: usize, y: usize) -> (r: Coordinate)
        ensures
            r.x == x,
            r.y == y,
    {
        Coordinate { x, y }
    }
}

/// A signed displacement on the grid. Also serves as the anchor position of a
/// piece, which may stick out below or left of the origin while the piece's
/// cells are still on the field.
#[derive(Clone, Copy, Debug, PartialEq, Eq, Structural)]
pub struct Offset {
    pub x: isize,
    pub y: isize,
}

impl Offset {
    pub fn new(x: isize, y: isize) -> (r: Offset)
        ensures
            r.x == x,
            r.y == y,
    {
        Offset { x, y }
    }

    /// Componentwise sum of two displacements.
    pub fn plus(self, other: Offset) -> (r: Offset)
        requires
            isize::MIN <= self.x + other.x <= isize::MAX,
            isize::MIN <= self.y + other.y <= isize::MAX,
        ensures
            r.x == self.x + other.x,
            r.y == self.y + other.y,
    {
        Offset { x: self.x + other.x, y: self.y + other.y }
    }
}

} // verus!
