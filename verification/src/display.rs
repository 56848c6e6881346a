//! The scaling adapter: every logical cell becomes a filled block on the
//! real surface.

use vstd::prelude::*;
use crate::point::{Pixel, Point, Size};

verus! {

/// A filled, axis-aligned rectangle on the real surface.
#[derive(Debug, PartialEq, Eq)]
pub struct Block<T> {
    pub top_left: Point,
    pub size: Size,
    pub color: T,
}

impl<T: Copy> Clone for Block<T> {
    fn clone(&self) -> (copy: Self)
        ensures
            copy == *self,
    {
        *self
    }
}

impl<T: Copy> Copy for Block<T> {

}

/// The geometry of a magnified surface: `size_x` by `size_y` logical cells,
/// each of them `scale_x` by `scale_y` pixels on the real surface.
#[derive(Clone, Copy, Debug, PartialEq, Eq, Structural)]
pub struct ScaledDisplay {
    pub size_x: u8,
    pub size_y: u8,
    pub scale_x: u8,
    pub scale_y: u8,
}

impl ScaledDisplay {
    /// Whether the block for a cell at `p` has a corner that `i32` can hold.
    pub open spec fn fits(self, p: Point) -> bool {
        &&& i32::MIN <= p.x * self.scale_x <= i32::MAX
        &&& i32::MIN <= p.y * self.scale_y <= i32::MAX
    }

    /// The block that stands for `pixel`: as large as the scale, at the
    /// cell's position multiplied by the scale.
    pub open spec fn block_spec<T>(self, pixel: Pixel<T>) -> Block<T> {
        Block {
            top_left: Point {
                x: (pixel.0.x * self.scale_x) as i32,
                y: (pixel.0.y * self.scale_y) as i32,
            },
            size: Size { width: self.scale_x as u32, height: self.scale_y as u32 },
            color: pixel.1,
        }
    }

    /// The blocks that stand for `pixels`, in the same order.
    pub open spec fn blocks<T>(self, pixels: Seq<Pixel<T>>) -> Seq<Block<T>> {
        Seq::new(pixels.len(), |i: int| self.block_spec(pixels[i]))
    }

    /// The adapter for a surface of `size_x` by `size_y` logical cells.
    pub fn new(size_x: u8, size_y: u8, scale_x: u8, scale_y: u8) -> (display: Self)
        ensures
            display == (ScaledDisplay { size_x, size_y, scale_x, scale_y }),
    {
        ScaledDisplay { size_x, size_y, scale_x, scale_y }
    }

    /// The size of the surface in logical cells.
    pub fn size(&self) -> (size: Size)
        ensures
            size == (Size { width: self.size_x as u32, height: self.size_y as u32 }),
    {
        Size { width: self.size_x as u32, height: self.size_y as u32 }
    }

    /// Magnifies one pixel.
    pub fn block<T: Copy>(&self, pixel: Pixel<T>) -> (block: Block<T>)
        requires
            self.fits(pixel.0),
        ensures
            block == self.block_spec(pixel),
    {
        Block {
            top_left: Point {
                x: pixel.0.x * (self.scale_x as i32),
                y: pixel.0.y * (self.scale_y as i32),
            },
            size: Size { width: self.scale_x as u32, height: self.scale_y as u32 },
            color: pixel.1,
        }
    }

    /// Draws `pixels` on `target`: one block for each, appended in order.
    pub fn draw_iter<T: Copy>(&self, pixels: &[Pixel<T>], target: &mut Vec<Block<T>>)
        requires
            forall|i: int| 0 <= i < pixels@.len() ==> self.fits(#[trigger] pixels@[i].0),
        ensures
            final(target)@ == old(target)@ + self.blocks(pixels@),
    {
        let mut i: usize = 0;
        while i < pixels.len()
            invariant
                i <= pixels@.len(),
                forall|k: int| 0 <= k < pixels@.len() ==> self.fits(#[trigger] pixels@[k].0),
                target@ == old(target)@ + self.blocks(pixels@.take(i as int)),
            decreases pixels@.len() - i,
        {
            let block = self.block(pixels[i]);
            target.push(block);
            i += 1;
        }
    }
}

} // verus!
