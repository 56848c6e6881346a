//! A snake: a fixed-capacity buffer of cells, a live prefix, and a heading.

use vstd::prelude::*;
use crate::direction::Direction;
use crate::point::{Pixel, Point};

verus! {

/// The number of live cells a snake starts with.
pub const INITIAL_LENGTH: usize = 5;

/// The mathematical state of a snake.
///
/// `cells` is the whole buffer, head first. Only the first `len` cells are
/// the snake's body; the cell right behind them is the one the tail left on
/// the last step, and it joins the body when the snake grows.
pub struct SnakeView<T> {
    pub cells: Seq<Point>,
    pub len: nat,
    pub direction: Direction,
    pub size_x: u8,
    pub size_y: u8,
    pub color: T,
}

impl<T> SnakeView<T> {
    /// The body is never empty, one buffer cell always stays in reserve, and
    /// the grid has at least one cell on each axis.
    pub open spec fn wf(self) -> bool {
        &&& 0 < self.len < self.cells.len()
        &&& self.size_x > 0
        &&& self.size_y > 0
    }

    /// The largest length the body can reach.
    pub open spec fn capacity(self) -> nat {
        (self.cells.len() - 1) as nat
    }

    /// The live cells, head first.
    pub open spec fn body(self) -> Seq<Point> {
        self.cells.take(self.len as int)
    }

    /// The cell that is steered.
    pub open spec fn head(self) -> Point {
        self.cells[0]
    }

    /// The live cells with the snake's colour, in drawing order.
    pub open spec fn pixels(self) -> Seq<Pixel<T>> {
        Seq::new(self.len, |i: int| Pixel(self.cells[i], self.color))
    }

    /// Whether `p` is one of the live cells.
    pub open spec fn contains(self, p: Point) -> bool {
        self.body().contains(p)
    }

    /// Whether the head lies on another live cell.
    pub open spec fn bites_itself(self) -> bool {
        self.body().skip(1).contains(self.head())
    }

    /// The state a snake is created in: every buffer cell on `start_at`.
    pub open spec fn initial(
        buffer: nat,
        color: T,
        size_x: u8,
        size_y: u8,
        start_at: Point,
        direction: Direction,
    ) -> Self {
        SnakeView {
            cells: Seq::new(buffer, |i: int| start_at),
            len: INITIAL_LENGTH as nat,
            direction,
            size_x,
            size_y,
            color,
        }
    }

    /// Whether every buffer cell has both coordinates between 0 and 255.
    pub open spec fn bounded(self) -> bool {
        forall|i: int|
            0 <= i < self.cells.len() ==> 0 <= (#[trigger] self.cells[i]).x <= 255 && 0
                <= self.cells[i].y <= 255
    }

    /// The same snake heading in `direction`.
    pub open spec fn turn(self, direction: Direction) -> Self {
        SnakeView { direction, ..self }
    }

    /// The body takes in the reserved cell, unless it is at capacity.
    pub open spec fn grow(self) -> Self {
        if self.len < self.capacity() {
            SnakeView { len: self.len + 1, ..self }
        } else {
            self
        }
    }

    /// Every live cell moves one slot back, the last one into the reserve,
    /// and the head advances in the current direction.
    pub open spec fn step(self) -> Self {
        SnakeView {
            cells: seq![self.direction.advance_spec(self.head(), self.size_x, self.size_y)]
                + self.cells.take(self.len as int) + self.cells.skip(self.len as int + 1),
            ..self
        }
    }
}

/// A cell belongs to the snake exactly if it is one of the first `len`
/// cells of the buffer.
pub proof fn lemma_contains<T>(s: SnakeView<T>, p: Point)
    requires
        s.wf(),
    ensures
        s.contains(p) <==> exists|i: int| 0 <= i < s.len && s.cells[i] == p,
{
    if exists|i: int| 0 <= i < s.len && s.cells[i] == p {
        let i = choose|i: int| 0 <= i < s.len && s.cells[i] == p;
        assert(s.body()[i] == p);
    }
}

/// A step makes the snake run into itself exactly if the head lands on a
/// cell that was live before the step and is not the last one, which the
/// tail leaves.
pub proof fn lemma_bites_after_step<T>(s: SnakeView<T>)
    requires
        s.wf(),
    ensures
        s.step().bites_itself() <==> exists|i: int|
            0 <= i < s.len - 1 && s.cells[i] == s.direction.advance_spec(
                s.head(),
                s.size_x,
                s.size_y,
            ),
{
    let t = s.step();
    let tail = t.body().skip(1);
    if exists|i: int| 0 <= i < s.len - 1 && s.cells[i] == t.head() {
        let i = choose|i: int| 0 <= i < s.len - 1 && s.cells[i] == t.head();
        assert(tail[i] == s.cells[i]);
    }
}

/// A step keeps the length; growing adds one cell or none, and never takes
/// the length past the capacity, which neither of them changes.
pub proof fn lemma_length<T>(s: SnakeView<T>)
    requires
        s.wf(),
    ensures
        s.step().len == s.len,
        s.len <= s.grow().len <= s.len + 1,
        s.grow().len <= s.capacity(),
        s.grow().wf(),
        s.step().capacity() == s.capacity(),
        s.grow().capacity() == s.capacity(),
{
}

/// A step keeps a well-formed snake well formed, and keeps its cells
/// between 0 and 255 if they were.
pub proof fn lemma_step_preserves<T>(s: SnakeView<T>)
    requires
        s.wf(),
    ensures
        s.step().wf(),
        s.step().cells.len() == s.cells.len(),
        s.bounded() ==> s.step().bounded(),
{
    if s.bounded() {
        let t = s.step();
        assert forall|i: int| 0 <= i < t.cells.len() implies 0 <= (#[trigger] t.cells[i]).x <= 255
            && 0 <= t.cells[i].y <= 255 by {}
    }
}

/// A snake that stands still runs into itself: its old head becomes the
/// cell behind the new head, at the same place.
pub proof fn lemma_still_bites<T>(s: SnakeView<T>)
    requires
        s.wf(),
        s.len >= 2,
        s.direction == Direction::Still,
    ensures
        s.step().cells[0] == s.step().cells[1],
        s.step().bites_itself(),
{
    let t = s.step();
    assert(t.body().skip(1)[0] == t.head());
}

/// A snake on a toroidal grid, with room for `MAX_SIZE - 1` live cells.
///
/// The cells live in a buffer of `MAX_SIZE` slots that is never resized:
/// one slot stays in reserve, so that a step can shift the whole body back
/// by one and growth only has to lengthen the live prefix.
pub struct Snake<T: Copy, const MAX_SIZE: usize> {
    color: T,
    parts: [Pixel<T>; MAX_SIZE],
    len: usize,
    direction: Direction,
    size_x: u8,
    size_y: u8,
}

/// A cursor over the live cells of a snake, head first.
pub struct SnakeIntoIterator<'a, T: Copy, const MAX_SIZE: usize> {
    snake: &'a Snake<T, MAX_SIZE>,
    index: usize,
}

impl<T: Copy, const MAX_SIZE: usize> View for Snake<T, MAX_SIZE> {
    type V = SnakeView<T>;

    closed spec fn view(&self) -> SnakeView<T> {
        SnakeView {
            cells: Seq::new(MAX_SIZE as nat, |i: int| self.parts[i].0),
            len: self.len as nat,
            direction: self.direction,
            size_x: self.size_x,
            size_y: self.size_y,
            color: self.color,
        }
    }
}

impl<T: Copy, const MAX_SIZE: usize> Snake<T, MAX_SIZE> {
    /// What holds of every snake: its state is well formed and every buffer
    /// cell carries the snake's colour.
    #[verifier::type_invariant]
    pub closed spec fn wf(&self) -> bool {
        &&& self@.wf()
        &&& forall|i: int| 0 <= i < MAX_SIZE ==> (#[trigger] self.parts[i]).1 == self.color
    }

    /// The state of a valid snake is well formed, over a buffer of
    /// `MAX_SIZE` cells.
    pub proof fn lemma_view_wf(&self)
        requires
            self.wf(),
        ensures
            self@.wf(),
            self@.cells.len() == MAX_SIZE,
    {
    }

    /// A snake of `INITIAL_LENGTH` cells, all of them on `start_at`.
    pub fn new(
        color: T,
        size_x: u8,
        size_y: u8,
        start_at: Point,
        starting_direction: Direction,
    ) -> (s: Self)
        requires
            MAX_SIZE > INITIAL_LENGTH,
            size_x > 0,
            size_y > 0,
        ensures
            s.wf(),
            s@ == SnakeView::initial(
                MAX_SIZE as nat,
                color,
                size_x,
                size_y,
                start_at,
                starting_direction,
            ),
    {
        let s = Snake {
            color,
            parts: [Pixel(start_at, color);MAX_SIZE],
            len: INITIAL_LENGTH,
            direction: starting_direction,
            size_x,
            size_y,
        };
        assert(s@.cells =~= Seq::new(MAX_SIZE as nat, |i: int| start_at));
        s
    }

    /// The number of live cells.
    pub fn len(&self) -> (n: usize)
        ensures
            n == self@.len,
            0 < n < MAX_SIZE,
    {
        proof {
            use_type_invariant(self);
        }
        self.len
    }

    /// The colour that the snake is painted in.
    pub fn color(&self) -> (c: T)
        ensures
            c == self@.color,
    {
        self.color
    }

    /// The direction that the next step moves in.
    pub fn direction(&self) -> (d: Direction)
        ensures
            d == self@.direction,
    {
        self.direction
    }

    /// Sets the direction that the next step moves in.
    pub fn set_direction(&mut self, direction: Direction)
        ensures
            final(self).wf(),
            final(self)@ == old(self)@.turn(direction),
    {
        proof {
            use_type_invariant(&*self);
        }
        self.direction = direction;
    }

    /// Whether `this` is one of the live cells.
    pub fn contains(&self, this: Point) -> (found: bool)
        ensures
            found == self@.contains(this),
    {
        proof {
            use_type_invariant(self);
        }
        let mut i: usize = 0;
        while i < self.len
            invariant
                self.wf(),
                i <= self.len,
                forall|k: int| 0 <= k < i ==> self@.cells[k] != this,
            decreases self.len - i,
        {
            let part = self.parts[i];
            if part.0.x == this.x && part.0.y == this.y {
                assert(self@.body()[i as int] == this);
                return true;
            }
            i += 1;
        }
        false
    }

    /// Whether the head lies on another live cell.
    pub fn bites_itself(&self) -> (bitten: bool)
        ensures
            bitten == self@.bites_itself(),
    {
        proof {
            use_type_invariant(self);
        }
        let head = self.parts[0].0;
        let mut i: usize = 1;
        while i < self.len
            invariant
                self.wf(),
                1 <= i <= self.len,
                head == self@.head(),
                forall|k: int| 1 <= k < i ==> self@.cells[k] != head,
            decreases self.len - i,
        {
            let part = self.parts[i];
            if part.0.x == head.x && part.0.y == head.y {
                assert(self@.body().skip(1)[i - 1] == head);
                return true;
            }
            i += 1;
        }
        false
    }

    /// Lengthens the body by the reserved cell, unless it is at capacity.
    pub fn grow(&mut self)
        ensures
            final(self).wf(),
            final(self)@ == old(self)@.grow(),
    {
        proof {
            use_type_invariant(&*self);
        }
        if self.len < MAX_SIZE - 1 {
            self.len += 1;
        }
    }

    /// Moves the snake one cell in its direction.
    ///
    /// The live cells shift back by one slot, the last of them into the
    /// reserved slot, and the head advances with wrap-around. With
    /// `Direction::Still` the head stays, so the first two cells coincide.
    pub fn make_step(&mut self)
        ensures
            final(self).wf(),
            final(self)@ == old(self)@.step(),
    {
        proof {
            use_type_invariant(&*self);
        }
        let mut i: usize = self.len;
        while i > 0
            invariant
                old(self).wf(),
                i <= self.len,
                self.len == old(self).len,
                self.color == old(self).color,
                self.direction == old(self).direction,
                self.size_x == old(self).size_x,
                self.size_y == old(self).size_y,
                forall|k: int| 0 <= k <= i ==> self.parts[k] == old(self).parts[k],
                forall|k: int| i < k <= self.len ==> self.parts[k] == old(self).parts[k - 1],
                forall|k: int| self.len < k < MAX_SIZE ==> self.parts[k] == old(self).parts[k],
            decreases i,
        {
            self.parts[i] = self.parts[i - 1];
            i -= 1;
        }
        let head = self.parts[0];
        self.parts[0] = Pixel(self.direction.advance(head.0, self.size_x, self.size_y), head.1);
        assert(self@.cells =~= old(self)@.step().cells);
    }

    /// A cursor that stands on the head.
    pub fn into_iter(&self) -> (cursor: SnakeIntoIterator<'_, T, MAX_SIZE>)
        ensures
            cursor@ == self@.pixels(),
    {
        proof {
            use_type_invariant(self);
        }
        let cursor = SnakeIntoIterator { snake: self, index: 0 };
        cursor
    }
}

/// The states of the three snake slots, in slot order.
pub open spec fn views<T: Copy, const MAX_SIZE: usize>(snakes: &[Snake<T, MAX_SIZE>; 3]) -> Seq<
    SnakeView<T>,
> {
    Seq::new(3, |i: int| snakes[i]@)
}

impl<'a, T: Copy, const MAX_SIZE: usize> View for SnakeIntoIterator<'a, T, MAX_SIZE> {
    type V = Seq<Pixel<T>>;

    /// The cells that the cursor has yet to hand out.
    closed spec fn view(&self) -> Seq<Pixel<T>> {
        self.snake@.pixels().skip(self.index as int)
    }
}

impl<'a, T: Copy, const MAX_SIZE: usize> SnakeIntoIterator<'a, T, MAX_SIZE> {
    /// What holds of every cursor: it stands on a live cell of a valid
    /// snake, or right behind the last one.
    #[verifier::type_invariant]
    pub closed spec fn wf(&self) -> bool {
        &&& self.snake.wf()
        &&& self.index <= self.snake.len
    }

    /// Hands out the cell under the cursor and moves on, or `None` behind
    /// the last live cell.
    pub fn next(&mut self) -> (item: Option<Pixel<T>>)
        ensures
            final(self).wf(),
            old(self)@.len() == 0 ==> item is None && final(self)@ == old(self)@,
            old(self)@.len() > 0 ==> item == Some(old(self)@[0]) && final(self)@ == old(self)@.skip(
                1,
            ),
    {
        proof {
            use_type_invariant(&*self);
        }
        if self.index < self.snake.len {
            let cur = self.snake.parts[self.index];
            self.index += 1;
            Some(cur)
        } else {
            None
        }
    }

    /// Skips `n` cells and hands out the one after them. Where fewer than
    /// `n + 1` are left, the cursor runs to the end and gives `None`.
    pub fn nth(&mut self, n: usize) -> (item: Option<Pixel<T>>)
        ensures
            final(self).wf(),
            n < old(self)@.len() ==> item == Some(old(self)@[n as int]) && final(self)@ == old(
                self,
            )@.skip(n + 1),
            n >= old(self)@.len() ==> item is None && final(self)@ == Seq::<Pixel<T>>::empty(),
    {
        proof {
            use_type_invariant(&*self);
        }
        if n < self.snake.len - self.index {
            self.index += n;
            let cur = self.snake.parts[self.index];
            self.index += 1;
            Some(cur)
        } else {
            self.index = self.snake.len;
            None
        }
    }
}

} // verus!
