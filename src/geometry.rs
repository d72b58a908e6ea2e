//! Directions of travel and grid positions.
use vstd::prelude::*;

verus! {

/// One of the four directions a piece can travel in.
#[derive(Clone, Copy, Debug, PartialEq, Eq, Structural)]
pub enum Direction {
    Up,
    Down,
    Left,
    Right,
}

/// A cell of the grid: `x` counts columns, `y` counts rows.
#[derive(Clone, Copy, Debug, PartialEq, Eq, Structural)]
pub struct Pos {
    pub x: i32,
    pub y: i32,
}

impl Direction {
    /// Column change of one step in this direction.
    pub open spec fn dx(self) -> int {
        match self {
            Direction::Left => -1,
            Direction::Right => 1,
            _ => 0,
        }
    }

    /// Row change of one step in this direction.
    pub open spec fn dy(self) -> int {
        match self {
            Direction::Up => -1,
            Direction::Down => 1,
            _ => 0,
        }
    }

    /// The unit step of this direction.
    pub fn get_unit_vec(&self) -> (r: Pos)
        ensures
            r.x == self.dx(),
            r.y == self.dy(),
    {
        match *self {
            Direction::Left => Pos { x: -1, y: 0 },
            Direction::Right => Pos { x: 1, y: 0 },
            Direction::Up => Pos { x: 0, y: -1 },
            Direction::Down => Pos { x: 0, y: 1 },
        }
    }

    /// Clockwise rotation, in degrees, of a shape drawn pointing up so that
    /// it points in this direction.
    pub fn get_rot(&self) -> (r: u32)
        ensures
            r == match *self {
                Direction::Up => 0u32,
                Direction::Right => 90u32,
                Direction::Down => 180u32,
                Direction::Left => 270u32,
            },
    {
        match *self {
            Direction::Left => 270,
            Direction::Right => 90,
            Direction::Up => 0,
            Direction::Down => 180,
        }
    }
}

impl Pos {
    /// The cell `k` steps away in direction `d`, as mathematical integers.
    pub open spec fn shifted(self, d: Direction, k: int) -> (int, int) {
        (self.x + k * d.dx(), self.y + k * d.dy())
    }
}

/// A cell given by mathematical coordinates, if both fit in `i32`.
pub open spec fn pos_of(c: (int, int)) -> Pos
    recommends
        i32::MIN <= c.0 <= i32::MAX,
        i32::MIN <= c.1 <= i32::MAX,
{
    Pos { x: c.0 as i32, y: c.1 as i32 }
}

} // verus!
