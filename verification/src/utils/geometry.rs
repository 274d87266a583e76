use vstd::prelude::*;
use crate::utils::enums::Direction;

verus! {

/// Coordinates beyond this bound, in half cells, are outside every field
/// and are not stepped from.
pub const COORD_LIMIT: i64 = 0x1000_0000_0000_0000;

/// A point of the field, in half cells: cell `(3, 2.5)` is `x: 6, y: 5`.
#[derive(Clone, Copy, Debug, PartialEq, Eq, Structural)]
pub struct Position {
    pub x: i64,
    pub y: i64,
}

impl Position {
    /// The point at the whole cell `(x, y)`.
    pub open spec fn at_cell(x: int, y: int) -> Position {
        Position { x: (2 * x) as i64, y: (2 * y) as i64 }
    }

    /// Both coordinates are within `COORD_LIMIT` of the origin.
    pub open spec fn in_range(self) -> bool {
        &&& -COORD_LIMIT <= self.x <= COORD_LIMIT
        &&& -COORD_LIMIT <= self.y <= COORD_LIMIT
    }

    /// The point one step away in direction `dir` has coordinates that are
    /// numbers of the machine.
    pub open spec fn can_step(self, dir: Direction) -> bool {
        &&& i64::MIN <= self.x + dir.spec_offset().0 <= i64::MAX
        &&& i64::MIN <= self.y + dir.spec_offset().1 <= i64::MAX
    }

    /// The point one step away in direction `dir`.
    pub open spec fn spec_step(self, dir: Direction) -> Position {
        Position {
            x: (self.x + dir.spec_offset().0) as i64,
            y: (self.y + dir.spec_offset().1) as i64,
        }
    }

    /// The point lies on a field of `field_size` cells: both coordinates
    /// are in `[0, size)` of their axis.
    pub open spec fn spec_inside(self, field_size: (u32, u32)) -> bool {
        &&& 0 <= self.x < 2 * field_size.0
        &&& 0 <= self.y < 2 * field_size.1
    }

    pub fn new(x: i64, y: i64) -> (p: Position)
        ensures
            p == (Position { x, y }),
    {
        Position { x, y }
    }

    /// The point at the whole cell `(x, y)`.
    pub fn from_cell(x: u32, y: u32) -> (p: Position)
        ensures
            p == Position::at_cell(x as int, y as int),
    {
        Position { x: 2 * (x as i64), y: 2 * (y as i64) }
    }

    #[verifier::when_used_as_spec(spec_step)]
    pub fn step(self, dir: Direction) -> (p: Position)
        requires
            self.can_step(dir),
        ensures
            p == self.spec_step(dir),
            p.x == self.x + dir.spec_offset().0,
            p.y == self.y + dir.spec_offset().1,
    {
        let d: (i64, i64) = dir.offset();
        Position { x: self.x + d.0, y: self.y + d.1 }
    }

    #[verifier::when_used_as_spec(spec_inside)]
    pub fn inside(self, field_size: (u32, u32)) -> (b: bool)
        ensures
            b == self.spec_inside(field_size),
    {
        0 <= self.x && self.x < 2 * (field_size.0 as i64) && 0 <= self.y && self.y < 2 * (
        field_size.1 as i64)
    }

    pub fn check_in_range(self) -> (b: bool)
        ensures
            b == self.in_range(),
    {
        -COORD_LIMIT <= self.x && self.x <= COORD_LIMIT && -COORD_LIMIT <= self.y && self.y
            <= COORD_LIMIT
    }
}

} // verus!
