//! Movement directions and the toroidal step they induce on a coordinate.

use vstd::prelude::*;
use crate::point::{in_grid, Point};

verus! {

/// The direction a snake moves in; `Still` keeps the head where it is.
#[derive(Clone, Copy, Debug, PartialEq, Eq, Structural)]
pub enum Direction {
    Left,
    Right,
    Up,
    Down,
    Still,
}

/// One step towards smaller coordinates on an axis of `size` cells:
/// stepping below the first cell re-enters at the last one. A coordinate
/// below the axis counts as its first cell.
pub open spec fn wrap_decrement(c: int, size: int) -> int {
    if c <= 0 {
        size - 1
    } else {
        c - 1
    }
}

/// One step towards larger coordinates on an axis of `size` cells:
/// stepping past the last cell re-enters at the first one. A coordinate
/// beyond the axis counts as its last cell.
pub open spec fn wrap_increment(c: int, size: int) -> int {
    if c >= size - 1 {
        0
    } else {
        c + 1
    }
}

impl Direction {
    /// Where a cell at `p` lands after one step in this direction on a grid
    /// of `size_x` by `size_y` cells. The two axes wrap independently.
    pub open spec fn advance_spec(self, p: Point, size_x: u8, size_y: u8) -> Point {
        match self {
            Direction::Left => Point { x: wrap_decrement(p.x as int, size_x as int) as i32, y: p.y },
            Direction::Right => Point { x: wrap_increment(p.x as int, size_x as int) as i32, y: p.y },
            Direction::Up => Point { x: p.x, y: wrap_decrement(p.y as int, size_y as int) as i32 },
            Direction::Down => Point { x: p.x, y: wrap_increment(p.y as int, size_y as int) as i32 },
            Direction::Still => p,
        }
    }

    /// Moves `p` one step in this direction, wrapping at the grid's edges.
    #[verifier::when_used_as_spec(advance_spec)]
    pub fn advance(self, p: Point, size_x: u8, size_y: u8) -> (q: Point)
        requires
            size_x > 0,
            size_y > 0,
        ensures
            q == self.advance_spec(p, size_x, size_y),
    {
        let last_x: i32 = (size_x - 1) as i32;
        let last_y: i32 = (size_y - 1) as i32;
        match self {
            Direction::Left => Point { x: if p.x <= 0 { last_x } else { p.x - 1 }, y: p.y },
            Direction::Right => Point { x: if p.x >= last_x { 0 } else { p.x + 1 }, y: p.y },
            Direction::Up => Point { x: p.x, y: if p.y <= 0 { last_y } else { p.y - 1 } },
            Direction::Down => Point { x: p.x, y: if p.y >= last_y { 0 } else { p.y + 1 } },
            Direction::Still => p,
        }
    }
}

/// Wrap-around on one axis: whatever the number of cells, a step forward
/// from the last cell lands on the first, and a step back from the first
/// lands on the last.
pub proof fn lemma_wrap_around(size: u8)
    ensures
        wrap_increment(size - 1, size as int) == 0,
        wrap_decrement(0, size as int) == size - 1,
{
}

/// Wrap-around on the grid: a cell in the last column moving right lands in
/// column 0, a cell in column 0 moving left lands in the last column, and
/// likewise for rows with down and up. The other coordinate stays.
pub proof fn lemma_advance_wraps(p: Point, size_x: u8, size_y: u8)
    requires
        size_x > 0,
        size_y > 0,
    ensures
        p.x == size_x - 1 ==> Direction::Right.advance_spec(p, size_x, size_y).x == 0,
        p.x == 0 ==> Direction::Left.advance_spec(p, size_x, size_y).x == size_x - 1,
        p.y == size_y - 1 ==> Direction::Down.advance_spec(p, size_x, size_y).y == 0,
        p.y == 0 ==> Direction::Up.advance_spec(p, size_x, size_y).y == size_y - 1,
        Direction::Right.advance_spec(p, size_x, size_y).y == p.y,
        Direction::Left.advance_spec(p, size_x, size_y).y == p.y,
        Direction::Down.advance_spec(p, size_x, size_y).x == p.x,
        Direction::Up.advance_spec(p, size_x, size_y).x == p.x,
{
}

/// A step never leaves the grid, and away from the edges it changes one
/// coordinate by exactly one.
pub proof fn lemma_advance_in_grid(d: Direction, p: Point, size_x: u8, size_y: u8)
    requires
        in_grid(p, size_x, size_y),
    ensures
        in_grid(d.advance_spec(p, size_x, size_y), size_x, size_y),
        d == Direction::Left && p.x > 0 ==> d.advance_spec(p, size_x, size_y).x == p.x - 1,
        d == Direction::Right && p.x < size_x - 1 ==> d.advance_spec(p, size_x, size_y).x == p.x
            + 1,
        d == Direction::Up && p.y > 0 ==> d.advance_spec(p, size_x, size_y).y == p.y - 1,
        d == Direction::Down && p.y < size_y - 1 ==> d.advance_spec(p, size_x, size_y).y == p.y
            + 1,
{
}

} // verus!
