//! Positions on the grid and painted cells.

use vstd::prelude::*;

verus! {

/// A position, in grid cells or in surface pixels.
#[derive(Clone, Copy, Debug, PartialEq, Eq, Structural)]
pub struct Point {
    pub x: i32,
    pub y: i32,
}

/// The extent of a rectangle or a surface.
#[derive(Clone, Copy, Debug, PartialEq, Eq, Structural)]
pub struct Size {
    pub width: u32,
    pub height: u32,
}

/// One cell together with the colour it is painted in.
#[derive(Debug, PartialEq, Eq)]
pub struct Pixel<T>(pub Point, pub T);

impl<T: Copy> Clone for Pixel<T> {
    fn clone(&self) -> (copy: Self)
        ensures
            copy == *self,
    {
        *self
    }
}

impl<T: Copy> Copy for Pixel<T> {

}

/// Whether `p` lies on the grid of `size_x` by `size_y` cells.
pub open spec fn in_grid(p: Point, size_x: u8, size_y: u8) -> bool {
    0 <= p.x < size_x && 0 <= p.y < size_y
}

} // verus!
