//! The food: one cell that moves to a free place of the grid on demand.

use vstd::prelude::*;
use crate::point::{in_grid, Pixel, Point};
use crate::snake::{views, Snake, SnakeView};
use crate::status::GameError;

verus! {

/// How many random cells `Food::replace` tries before it searches the grid
/// cell by cell.
pub const MAX_SAMPLES: usize = 64;

/// Whether `p` is a live cell of one of the first `active` snakes.
pub open spec fn occupied<T>(snakes: Seq<SnakeView<T>>, active: nat, p: Point) -> bool {
    exists|i: int| 0 <= i < active && i < snakes.len() && #[trigger] snakes[i].contains(p)
}

/// Whether `p` is a cell of the grid that no active snake lies on.
pub open spec fn free_cell<T>(
    snakes: Seq<SnakeView<T>>,
    active: nat,
    size_x: u8,
    size_y: u8,
    p: Point,
) -> bool {
    in_grid(p, size_x, size_y) && !occupied(snakes, active, p)
}

/// Whether the grid has a cell that no active snake lies on.
pub open spec fn has_free_cell<T>(
    snakes: Seq<SnakeView<T>>,
    active: nat,
    size_x: u8,
    size_y: u8,
) -> bool {
    exists|p: Point| free_cell(snakes, active, size_x, size_y, p)
}

/// Whether `p` comes no later than `q` when the grid is read row by row.
pub open spec fn precedes(p: Point, q: Point) -> bool {
    p.y < q.y || (p.y == q.y && p.x <= q.x)
}

/// Whether `p` is the first free cell when the grid is read row by row.
pub open spec fn first_free_cell<T>(
    snakes: Seq<SnakeView<T>>,
    active: nat,
    size_x: u8,
    size_y: u8,
    p: Point,
) -> bool {
    &&& free_cell(snakes, active, size_x, size_y, p)
    &&& forall|q: Point| free_cell(snakes, active, size_x, size_y, q) ==> precedes(p, q)
}

/// The cell that a 32-bit random value stands for: its highest byte picks
/// the column and the byte below it picks the row, each reduced modulo the
/// grid's size on that axis.
pub open spec fn candidate_spec(random_number: u32, size_x: u8, size_y: u8) -> Point {
    Point {
        x: ((random_number as int / 0x100_0000) % (size_x as int)) as i32,
        y: ((random_number as int / 0x1_0000 % 0x100) % (size_y as int)) as i32,
    }
}

/// Computes the cell that `random_number` stands for. It lies on the grid.
#[verifier::when_used_as_spec(candidate_spec)]
pub fn candidate(random_number: u32, size_x: u8, size_y: u8) -> (p: Point)
    requires
        size_x > 0,
        size_y > 0,
    ensures
        p == candidate_spec(random_number, size_x, size_y),
        in_grid(p, size_x, size_y),
{
    let high: u32 = random_number >> 24;
    let next: u32 = (random_number >> 16) & 0xff;
    assert(high == random_number / 0x100_0000 && high < 0x100) by (bit_vector)
        requires
            high == random_number >> 24,
    ;
    assert(next == random_number / 0x1_0000 % 0x100 && next < 0x100) by (bit_vector)
        requires
            next == (random_number >> 16) & 0xff,
    ;
    Point { x: (high as u8 % size_x) as i32, y: (next as u8 % size_y) as i32 }
}

/// Whether `p` is a live cell of one of the first `player_count` snakes.
pub fn blocked<T: Copy, const MAX_SIZE: usize>(
    snakes: &[Snake<T, MAX_SIZE>; 3],
    player_count: usize,
    p: Point,
) -> (hit: bool)
    ensures
        hit == occupied(views(snakes), player_count as nat, p),
{
    let mut i: usize = 0;
    while i < 3 && i < player_count
        invariant
            i <= 3,
            forall|k: int| 0 <= k < i ==> !(#[trigger] views(snakes)[k]).contains(p),
        decreases 3 - i,
    {
        if snakes[i].contains(p) {
            assert(views(snakes)[i as int].contains(p));
            return true;
        }
        i += 1;
    }
    false
}

/// Draws the next value from `rng` with `rand_core::RngCore::next_u32`.
/// Nothing is claimed of the value: every `u32` may come back.
#[verifier::external_body]
fn next_u32<RNG: rand_core::RngCore>(rng: &mut RNG) -> (random_number: u32) {
    rng.next_u32()
}

/// The state of the food, without its random source.
pub struct FoodView<T> {
    pub place: Point,
    pub color: T,
    pub size_x: u8,
    pub size_y: u8,
}

/// The food cell and the random source that picks its next place.
pub struct Food<T: Copy, RNG> {
    size_x: u8,
    size_y: u8,
    place: Pixel<T>,
    rng: RNG,
}

impl<T: Copy, RNG> View for Food<T, RNG> {
    type V = FoodView<T>;

    closed spec fn view(&self) -> FoodView<T> {
        FoodView {
            place: self.place.0,
            color: self.place.1,
            size_x: self.size_x,
            size_y: self.size_y,
        }
    }
}

impl<T: Copy, RNG> Food<T, RNG> {
    /// Food of the given colour at the grid's origin, for a grid of
    /// `size_x` by `size_y` cells.
    pub fn new(color: T, rand_source: RNG, size_x: u8, size_y: u8) -> (food: Self)
        ensures
            food@ == (FoodView { place: Point { x: 0, y: 0 }, color, size_x, size_y }),
    {
        Food { size_x, size_y, place: Pixel(Point { x: 0, y: 0 }, color), rng: rand_source }
    }

    /// The food cell with its colour.
    pub fn get_pixel(&self) -> (pixel: Pixel<T>)
        ensures
            pixel == Pixel(self@.place, self@.color),
    {
        self.place
    }

    /// Offers the food the cell that `random_number` stands for: the food
    /// moves there if none of the first `player_count` snakes lies on it,
    /// and stays where it is otherwise, or if the grid has no cells.
    pub fn try_place<const MAX_SIZE: usize>(
        &mut self,
        random_number: u32,
        snakes: &[Snake<T, MAX_SIZE>; 3],
        player_count: usize,
    ) -> (placed: bool)
        ensures
            placed == free_cell(
                views(snakes),
                player_count as nat,
                old(self)@.size_x,
                old(self)@.size_y,
                candidate_spec(random_number, old(self)@.size_x, old(self)@.size_y),
            ),
            final(self)@ == if placed {
                FoodView {
                    place: candidate_spec(random_number, old(self)@.size_x, old(self)@.size_y),
                    ..old(self)@
                }
            } else {
                old(self)@
            },
    {
        if self.size_x == 0 || self.size_y == 0 {
            return false;
        }
        let p = candidate(random_number, self.size_x, self.size_y);
        if blocked(snakes, player_count, p) {
            return false;
        }
        self.place = Pixel(p, self.place.1);
        true
    }

    /// Moves the food to the first cell, reading the grid row by row, that
    /// none of the first `player_count` snakes lies on. Where there is no
    /// such cell the call fails and the food stays.
    pub fn search<const MAX_SIZE: usize>(
        &mut self,
        snakes: &[Snake<T, MAX_SIZE>; 3],
        player_count: usize,
    ) -> (outcome: Result<(), GameError>)
        ensures
            outcome is Ok <==> has_free_cell(
                views(snakes),
                player_count as nat,
                old(self)@.size_x,
                old(self)@.size_y,
            ),
            outcome is Ok ==> first_free_cell(
                views(snakes),
                player_count as nat,
                old(self)@.size_x,
                old(self)@.size_y,
                final(self)@.place,
            ) && final(self)@ == (FoodView { place: final(self)@.place, ..old(self)@ }),
            outcome is Err ==> final(self)@ == old(self)@,
    {
        let mut y: u8 = 0;
        while y < self.size_y
            invariant
                *self == *old(self),
                y <= self.size_y,
                forall|p: Point|
                    0 <= p.x < self.size_x && 0 <= p.y < y ==> occupied(
                        views(snakes),
                        player_count as nat,
                        p,
                    ),
            decreases self.size_y - y,
        {
            let mut x: u8 = 0;
            while x < self.size_x
                invariant
                    *self == *old(self),
                    x <= self.size_x,
                    y < self.size_y,
                    forall|p: Point|
                        0 <= p.x < self.size_x && 0 <= p.y < y ==> occupied(
                            views(snakes),
                            player_count as nat,
                            p,
                        ),
                    forall|p: Point|
                        0 <= p.x < x && p.y == y ==> occupied(
                            views(snakes),
                            player_count as nat,
                            p,
                        ),
                decreases self.size_x - x,
            {
                let p = Point { x: x as i32, y: y as i32 };
                if !blocked(snakes, player_count, p) {
                    self.place = Pixel(p, self.place.1);
                    assert(free_cell(
                        views(snakes),
                        player_count as nat,
                        self.size_x,
                        self.size_y,
                        p,
                    ));
                    return Ok(());
                }
                x += 1;
            }
            y += 1;
        }
        Err(GameError::NoFreeCell)
    }
}

impl<T: Copy, RNG: rand_core::RngCore> Food<T, RNG> {
    /// Moves the food to a cell of the grid that none of the first
    /// `player_count` snakes lies on.
    ///
    /// Up to `MAX_SAMPLES` random values are drawn and offered with
    /// `try_place`; if none of them is taken, `search` finds the place. The
    /// call fails exactly when no cell is free, and then the food stays
    /// where it was. On a grid without cells nothing is drawn.
    pub fn replace<const MAX_SIZE: usize>(
        &mut self,
        snakes: &[Snake<T, MAX_SIZE>; 3],
        player_count: usize,
    ) -> (outcome: Result<(), GameError>)
        ensures
            outcome is Ok <==> has_free_cell(
                views(snakes),
                player_count as nat,
                old(self)@.size_x,
                old(self)@.size_y,
            ),
            outcome is Ok ==> free_cell(
                views(snakes),
                player_count as nat,
                old(self)@.size_x,
                old(self)@.size_y,
                final(self)@.place,
            ) && final(self)@ == (FoodView { place: final(self)@.place, ..old(self)@ }),
            outcome is Err ==> final(self)@ == old(self)@,
    {
        if self.size_x == 0 || self.size_y == 0 {
            return Err(GameError::NoFreeCell);
        }
        let mut attempts: usize = 0;
        while attempts < MAX_SAMPLES
            invariant
                self@ == old(self)@,
            decreases MAX_SAMPLES - attempts,
        {
            let random_number = next_u32(&mut self.rng);
            if self.try_place(random_number, snakes, player_count) {
                return Ok(());
            }
            attempts += 1;
        }
        self.search(snakes, player_count)
    }
}

} // verus!
