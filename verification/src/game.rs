//! The game: up to three snakes and one food cell, advanced tick by tick.

use vstd::prelude::*;
use crate::direction::Direction;
use crate::display::{Block, ScaledDisplay};
use crate::food::{free_cell, has_free_cell, Food, FoodView};
use crate::point::{in_grid, Pixel, Point};
use crate::snake::{
    lemma_length, lemma_step_preserves, views, Snake, SnakeView, INITIAL_LENGTH,
};
use crate::status::{GameError, GameStatus};

verus! {

/// The mathematical state of a game.
///
/// `size_x` by `size_y` is the real surface in pixels; the grid that the
/// snakes live on is that size divided by the scale.
pub struct GameView<T> {
    pub snakes: Seq<SnakeView<T>>,
    pub food: FoodView<T>,
    pub food_age: u8,
    pub food_lifetime: u8,
    pub size_x: u8,
    pub size_y: u8,
    pub scale_x: u8,
    pub scale_y: u8,
    pub player_count: nat,
}

/// The three snakes a game starts with: the first at the origin heading
/// right, the second in row 7 heading right, the third in column 31 heading
/// left.
pub open spec fn seeds<T>(buffer: nat, colors: Seq<T>, size_x: u8, size_y: u8) -> Seq<
    SnakeView<T>,
> {
    seq![
        SnakeView::initial(buffer, colors[0], size_x, size_y, Point { x: 0, y: 0 }, Direction::Right),
        SnakeView::initial(buffer, colors[1], size_x, size_y, Point { x: 0, y: 7 }, Direction::Right),
        SnakeView::initial(buffer, colors[2], size_x, size_y, Point { x: 31, y: 0 }, Direction::Left),
    ]
}

impl<T> GameView<T> {
    /// The number of grid columns.
    pub open spec fn grid_x(self) -> u8 {
        self.size_x / self.scale_x
    }

    /// The number of grid rows.
    pub open spec fn grid_y(self) -> u8 {
        self.size_y / self.scale_y
    }

    /// One to three players; a grid with at least one cell; three
    /// well-formed snakes on that grid with coordinates between 0 and 255;
    /// the food on the grid; and a food age below the food's lifetime, or 0.
    pub open spec fn wf(self) -> bool {
        &&& self.snakes.len() == 3
        &&& 1 <= self.player_count <= 3
        &&& self.scale_x > 0
        &&& self.scale_y > 0
        &&& self.grid_x() > 0
        &&& self.grid_y() > 0
        &&& forall|i: int|
            0 <= i < 3 ==> {
                &&& (#[trigger] self.snakes[i]).wf()
                &&& self.snakes[i].bounded()
                &&& self.snakes[i].size_x == self.grid_x()
                &&& self.snakes[i].size_y == self.grid_y()
            }
        &&& self.food.size_x == self.grid_x()
        &&& self.food.size_y == self.grid_y()
        &&& in_grid(self.food.place, self.grid_x(), self.grid_y())
        &&& (self.food_age == 0 || self.food_age < self.food_lifetime)
    }

    /// The adapter that magnifies the grid onto the real surface.
    pub open spec fn display(self) -> ScaledDisplay {
        ScaledDisplay {
            size_x: self.grid_x(),
            size_y: self.grid_y(),
            scale_x: self.scale_x,
            scale_y: self.scale_y,
        }
    }

    /// Whether snake `i` runs into itself when it steps.
    pub open spec fn crashes_at(self, i: int) -> bool {
        self.snakes[i].step().bites_itself()
    }

    /// Whether an active snake before snake `i` runs into itself.
    pub open spec fn crash_before(self, i: int) -> bool {
        exists|k: int| 0 <= k < i && k < self.player_count && #[trigger] self.crashes_at(k)
    }

    /// Whether a tick ends the game: some active snake runs into itself.
    pub open spec fn crashes(self) -> bool {
        self.crash_before(self.player_count as int)
    }

    /// Whether snake `i` lies on the food once it has stepped.
    pub open spec fn eats_at(self, i: int) -> bool {
        self.snakes[i].step().contains(self.food.place)
    }

    /// Whether an active snake before snake `i` reaches the food.
    pub open spec fn eaten_before(self, i: int) -> bool {
        exists|k: int| 0 <= k < i && k < self.player_count && #[trigger] self.eats_at(k)
    }

    /// Whether some active snake reaches the food in a tick.
    pub open spec fn food_eaten(self) -> bool {
        self.eaten_before(self.player_count as int)
    }

    /// Snake `i` after one tick.
    ///
    /// The active snakes step in slot order up to and including the first
    /// one that runs into itself; the others stay as they are. Of the
    /// snakes that stepped without running into themselves, the first to
    /// lie on the food grows.
    pub open spec fn snake_after_tick(self, i: int) -> SnakeView<T> {
        if i >= self.player_count || self.crash_before(i) {
            self.snakes[i]
        } else if !self.crashes_at(i) && self.eats_at(i) && !self.eaten_before(i) {
            self.snakes[i].step().grow()
        } else {
            self.snakes[i].step()
        }
    }

    /// All snakes after one tick.
    pub open spec fn snakes_after_tick(self) -> Seq<SnakeView<T>> {
        Seq::new(self.snakes.len(), |i: int| self.snake_after_tick(i))
    }

    /// Whether a tick that ends no game moves the food: the food has
    /// reached its lifetime, or a snake has eaten it.
    pub open spec fn relocation_due(self) -> bool {
        self.food_age + 1 >= self.food_lifetime || self.food_eaten()
    }

    /// The food's age after a tick: unchanged where the tick ends the game,
    /// back to 0 where the food is due to move, and one more otherwise.
    pub open spec fn food_age_after_tick(self) -> int {
        if self.crashes() {
            self.food_age as int
        } else if self.relocation_due() {
            0
        } else {
            self.food_age + 1
        }
    }

    /// Whether `other` has the same surface, scale, player count, food
    /// lifetime and food colour as this game.
    pub open spec fn same_setup(self, other: Self) -> bool {
        &&& self.size_x == other.size_x
        &&& self.size_y == other.size_y
        &&& self.scale_x == other.scale_x
        &&& self.scale_y == other.scale_y
        &&& self.player_count == other.player_count
        &&& self.food_lifetime == other.food_lifetime
        &&& self.food.color == other.food.color
        &&& self.food.size_x == other.food.size_x
        &&& self.food.size_y == other.food.size_y
    }

    /// Putting a well-formed snake of the same grid, with coordinates
    /// between 0 and 255, into a slot keeps the state well formed.
    pub proof fn lemma_put_snake(self, i: int, snake: SnakeView<T>)
        requires
            self.wf(),
            0 <= i < 3,
            snake.wf(),
            snake.bounded(),
            snake.size_x == self.grid_x(),
            snake.size_y == self.grid_y(),
        ensures
            (GameView { snakes: self.snakes.update(i, snake), ..self }).wf(),
    {
        let after = GameView { snakes: self.snakes.update(i, snake), ..self };
        assert forall|j: int| 0 <= j < 3 implies {
            &&& (#[trigger] after.snakes[j]).wf()
            &&& after.snakes[j].bounded()
            &&& after.snakes[j].size_x == after.grid_x()
            &&& after.snakes[j].size_y == after.grid_y()
        } by {}
    }

    /// The live cells of the first `n` snakes, snake by snake, head first.
    pub open spec fn pixels_upto(self, n: int) -> Seq<Pixel<T>>
        decreases n,
    {
        if n <= 0 {
            Seq::empty()
        } else {
            self.pixels_upto(n - 1) + self.snakes[n - 1].pixels()
        }
    }

    /// What a frame shows, in drawing order: the live cells of the active
    /// snakes, then the food.
    pub open spec fn pixels(self) -> Seq<Pixel<T>> {
        self.pixels_upto(self.player_count as int).push(Pixel(self.food.place, self.food.color))
    }

    /// The blocks that a frame paints on the real surface.
    pub open spec fn frame(self) -> Seq<Block<T>> {
        self.display().blocks(self.pixels())
    }
}

/// A game of snake for one to three players.
pub struct SnakeGame<const MAX_SNAKE_SIZE: usize, T: Copy, RNG> {
    snakes: [Snake<T, MAX_SNAKE_SIZE>; 3],
    food: Food<T, RNG>,
    food_age: u8,
    food_lifetime: u8,
    size_x: u8,
    size_y: u8,
    scale_x: u8,
    scale_y: u8,
    player_count: usize,
}

impl<const MAX_SNAKE_SIZE: usize, T: Copy, RNG> View for SnakeGame<MAX_SNAKE_SIZE, T, RNG> {
    type V = GameView<T>;

    closed spec fn view(&self) -> GameView<T> {
        GameView {
            snakes: views(&self.snakes),
            food: self.food@,
            food_age: self.food_age,
            food_lifetime: self.food_lifetime,
            size_x: self.size_x,
            size_y: self.size_y,
            scale_x: self.scale_x,
            scale_y: self.scale_y,
            player_count: self.player_count as nat,
        }
    }
}

impl<const MAX_SNAKE_SIZE: usize, T: Copy, RNG> SnakeGame<MAX_SNAKE_SIZE, T, RNG> {
    /// The validity of a game, which `new` establishes and every method
    /// keeps: its state is well formed and so is each of its snakes.
    pub closed spec fn wf(&self) -> bool {
        &&& self@.wf()
        &&& forall|i: int| 0 <= i < 3 ==> (#[trigger] self.snakes[i]).wf()
    }

    /// The state of a valid game is well formed.
    pub proof fn lemma_view_wf(&self)
        requires
            self.wf(),
        ensures
            self@.wf(),
    {
    }

    /// Over a tick no snake of a valid game gets shorter, gains more than
    /// one cell, or outgrows the `MAX_SNAKE_SIZE - 1` cells it has room for.
    pub proof fn lemma_tick_growth(&self)
        requires
            self.wf(),
        ensures
            forall|i: int|
                0 <= i < 3 ==> self@.snakes[i].len <= (#[trigger] self@.snake_after_tick(i)).len
                    <= self@.snakes[i].len + 1 && self@.snake_after_tick(i).len <= MAX_SNAKE_SIZE
                    - 1,
    {
        assert forall|i: int| 0 <= i < 3 implies self@.snakes[i].len <= (
        #[trigger] self@.snake_after_tick(i)).len <= self@.snakes[i].len + 1
            && self@.snake_after_tick(i).len <= MAX_SNAKE_SIZE - 1 by {
            lemma_growth(self@, i);
            self.snakes[i].lemma_view_wf();
        }
    }

    /// Sets the direction that snake `player` moves in from the next tick on.
    pub fn set_direction(&mut self, player: usize, direction: Direction)
        requires
            old(self).wf(),
            player < 3,
        ensures
            final(self).wf(),
            final(self)@ == (GameView {
                snakes: old(self)@.snakes.update(
                    player as int,
                    old(self)@.snakes[player as int].turn(direction),
                ),
                ..old(self)@
            }),
    {
        self.snakes[player].set_direction(direction);
        assert(self@.snakes =~= old(self)@.snakes.update(
            player as int,
            old(self)@.snakes[player as int].turn(direction),
        ));
    }

    /// The three snake slots; the first `player_count` of them play.
    pub fn snakes(&self) -> (snakes: &[Snake<T, MAX_SNAKE_SIZE>; 3])
        ensures
            views(snakes) == self@.snakes,
    {
        &self.snakes
    }

    /// The number of snakes that play.
    pub fn player_count(&self) -> (n: usize)
        ensures
            n == self@.player_count,
    {
        self.player_count
    }

    /// Paints the current frame on `target`: one block for every live cell
    /// of every active snake, then one for the food.
    pub fn render(&self, target: &mut Vec<Block<T>>)
        requires
            self.wf(),
        ensures
            final(target)@ == old(target)@ + self@.frame(),
    {
        let display = ScaledDisplay::new(
            self.size_x / self.scale_x,
            self.size_y / self.scale_y,
            self.scale_x,
            self.scale_y,
        );
        let mut i: usize = 0;
        while i < self.player_count
            invariant
                self.wf(),
                display == self@.display(),
                i <= self.player_count,
                target@ == old(target)@ + display.blocks(self@.pixels_upto(i as int)),
            decreases self.player_count - i,
        {
            let ghost cells = self@.snakes[i as int].pixels();
            let ghost before = target@;
            let ghost mut n: int = 0;
            let mut cursor = self.snakes[i].into_iter();
            let mut more = true;
            while more
                invariant
                    self.wf(),
                    display == self@.display(),
                    i < self.player_count,
                    cells == self@.snakes[i as int].pixels(),
                    0 <= n <= cells.len(),
                    cursor@ == cells.skip(n),
                    !more ==> n == cells.len(),
                    target@ == before + display.blocks(cells.take(n)),
                decreases cells.len() - n + if more { 1int } else { 0int },
            {
                match cursor.next() {
                    Some(part) => {
                        proof {
                            lemma_bounded_fits(display, part.0);
                            n = n + 1;
                        }
                        target.push(display.block(part));
                    },
                    None => {
                        more = false;
                    },
                }
            }
            i += 1;
        }
        let pixel = self.food.get_pixel();
        proof {
            lemma_bounded_fits(display, pixel.0);
        }
        target.push(display.block(pixel));
    }
}

/// A cell with both coordinates between 0 and 255 has a block on every
/// magnified surface.
pub proof fn lemma_bounded_fits(display: ScaledDisplay, p: Point)
    requires
        0 <= p.x <= 255,
        0 <= p.y <= 255,
    ensures
        display.fits(p),
{
    let (x, y) = (p.x as int, p.y as int);
    let (sx, sy) = (display.scale_x as int, display.scale_y as int);
    assert(0 <= x * sx <= 65025) by (nonlinear_arith)
        requires
            0 <= x <= 255,
            0 <= sx <= 255,
    ;
    assert(0 <= y * sy <= 65025) by (nonlinear_arith)
        requires
            0 <= y <= 255,
            0 <= sy <= 255,
    ;
}

/// Growth over a tick: no snake gets shorter, none gains more than one
/// cell, and none exceeds its capacity, which stays as it is.
pub proof fn lemma_growth<T>(g: GameView<T>, i: int)
    requires
        g.wf(),
        0 <= i < 3,
    ensures
        g.snakes[i].len <= g.snake_after_tick(i).len <= g.snakes[i].len + 1,
        g.snake_after_tick(i).len <= g.snake_after_tick(i).capacity(),
        g.snake_after_tick(i).capacity() == g.snakes[i].capacity(),
{
    lemma_step_preserves(g.snakes[i]);
    lemma_length(g.snakes[i]);
    lemma_length(g.snakes[i].step());
}

/// At most one snake grows in a tick.
pub proof fn lemma_one_grows<T>(g: GameView<T>, i: int, j: int)
    requires
        g.wf(),
        0 <= i < j < 3,
    ensures
        !(g.snake_after_tick(i).len > g.snakes[i].len && g.snake_after_tick(j).len
            > g.snakes[j].len),
{
    lemma_step_preserves(g.snakes[i]);
    lemma_step_preserves(g.snakes[j]);
    lemma_length(g.snakes[i]);
    lemma_length(g.snakes[j]);
}

/// A snake that has just been created lies on its start cell and nowhere
/// else.
pub proof fn lemma_initial_contains<T>(
    buffer: nat,
    color: T,
    size_x: u8,
    size_y: u8,
    start_at: Point,
    direction: Direction,
    p: Point,
)
    requires
        buffer > INITIAL_LENGTH,
    ensures
        SnakeView::initial(buffer, color, size_x, size_y, start_at, direction).contains(p) <==> p
            == start_at,
{
    let s = SnakeView::initial(buffer, color, size_x, size_y, start_at, direction);
    assert(s.body()[0] == start_at);
}

/// The starting snakes leave a cell of the grid free unless the grid is a
/// single cell.
pub proof fn lemma_seeds_leave_room<T>(
    buffer: nat,
    colors: Seq<T>,
    size_x: u8,
    size_y: u8,
    active: nat,
)
    requires
        buffer > INITIAL_LENGTH,
        size_x > 0,
        size_y > 0,
        1 <= active <= 3,
    ensures
        has_free_cell(seeds(buffer, colors, size_x, size_y), active, size_x, size_y) <==> !(size_x
            == 1 && size_y == 1),
{
    let snakes = seeds(buffer, colors, size_x, size_y);
    let origin = Point { x: 0, y: 0 };
    assert forall|p: Point| #![auto] snakes[0].contains(p) <==> p == origin by {
        lemma_initial_contains(buffer, colors[0], size_x, size_y, origin, Direction::Right, p);
    }
    assert forall|p: Point| #![auto] snakes[1].contains(p) <==> p == (Point { x: 0, y: 7 }) by {
        lemma_initial_contains(
            buffer,
            colors[1],
            size_x,
            size_y,
            Point { x: 0, y: 7 },
            Direction::Right,
            p,
        );
    }
    assert forall|p: Point| #![auto] snakes[2].contains(p) <==> p == (Point { x: 31, y: 0 }) by {
        lemma_initial_contains(
            buffer,
            colors[2],
            size_x,
            size_y,
            Point { x: 31, y: 0 },
            Direction::Left,
            p,
        );
    }
    if size_x == 1 && size_y == 1 {
        assert forall|p: Point| !free_cell(snakes, active, size_x, size_y, p) by {
            if in_grid(p, size_x, size_y) {
                assert(snakes[0].contains(p));
            }
        }
    } else {
        let p = if size_x > 1 {
            Point { x: 1, y: 0 }
        } else {
            Point { x: 0, y: 1 }
        };
        assert(free_cell(snakes, active, size_x, size_y, p));
    }
}

impl<const MAX_SNAKE_SIZE: usize, T: Copy, RNG: rand_core::RngCore> SnakeGame<
    MAX_SNAKE_SIZE,
    T,
    RNG,
> {
    /// A game on a surface of `size_x` by `size_y` pixels, magnified by
    /// `scale_x` and `scale_y`, for `player_count` players.
    ///
    /// The snakes start as `seeds` says and the food lies on a free cell.
    /// The only grid without a free cell is the one with a single cell.
    pub fn new(
        size_x: u8,
        size_y: u8,
        scale_x: u8,
        scale_y: u8,
        rand_source: RNG,
        snake_colors: [T; 3],
        food_color: T,
        food_lifetime: u8,
        player_count: usize,
    ) -> (game: Result<Self, GameError>)
        requires
            MAX_SNAKE_SIZE > INITIAL_LENGTH,
            scale_x > 0,
            scale_y > 0,
            size_x >= scale_x,
            size_y >= scale_y,
            1 <= player_count <= 3,
        ensures
            game is Err <==> size_x / scale_x == 1 && size_y / scale_y == 1,
            game matches Ok(g) ==> {
                &&& g.wf()
                &&& g@.snakes == seeds(
                    MAX_SNAKE_SIZE as nat,
                    snake_colors@,
                    size_x / scale_x,
                    size_y / scale_y,
                )
                &&& g@.food.color == food_color
                &&& free_cell(
                    g@.snakes,
                    player_count as nat,
                    g@.grid_x(),
                    g@.grid_y(),
                    g@.food.place,
                )
                &&& g@.food_age == 0
                &&& g@.food_lifetime == food_lifetime
                &&& g@.size_x == size_x
                &&& g@.size_y == size_y
                &&& g@.scale_x == scale_x
                &&& g@.scale_y == scale_y
                &&& g@.player_count == player_count
            },
    {
        let grid_x: u8 = size_x / scale_x;
        let grid_y: u8 = size_y / scale_y;
        assert(grid_x > 0) by (nonlinear_arith)
            requires
                grid_x == size_x / scale_x,
                size_x >= scale_x > 0,
        ;
        assert(grid_y > 0) by (nonlinear_arith)
            requires
                grid_y == size_y / scale_y,
                size_y >= scale_y > 0,
        ;
        let snakes = [
            Snake::<T, MAX_SNAKE_SIZE>::new(
                snake_colors[0],
                grid_x,
                grid_y,
                Point { x: 0, y: 0 },
                Direction::Right,
            ),
            Snake::<T, MAX_SNAKE_SIZE>::new(
                snake_colors[1],
                grid_x,
                grid_y,
                Point { x: 0, y: 7 },
                Direction::Right,
            ),
            Snake::<T, MAX_SNAKE_SIZE>::new(
                snake_colors[2],
                grid_x,
                grid_y,
                Point { x: 31, y: 0 },
                Direction::Left,
            ),
        ];
        let mut food = Food::<T, RNG>::new(food_color, rand_source, grid_x, grid_y);
        proof {
            assert(views(&snakes) =~= seeds(
                MAX_SNAKE_SIZE as nat,
                snake_colors@,
                grid_x,
                grid_y,
            ));
            lemma_seeds_leave_room(
                MAX_SNAKE_SIZE as nat,
                snake_colors@,
                grid_x,
                grid_y,
                player_count as nat,
            );
        }
        match food.replace(&snakes, player_count) {
            Err(e) => Err(e),
            Ok(()) => {
                let game = SnakeGame {
                    snakes,
                    food,
                    food_age: 0,
                    food_lifetime,
                    size_x,
                    size_y,
                    scale_x,
                    scale_y,
                    player_count,
                };
                Ok(game)
            },
        }
    }

    /// Advances the game by one tick and paints the new frame on `target`.
    ///
    /// The active snakes step in slot order. The first one that runs into
    /// itself ends the tick at once with `End`: the snakes behind it do
    /// not move, the food stays, and nothing is painted. Otherwise the
    /// first snake to reach the food grows; the food grows one tick older,
    /// and where it has been eaten or has reached its lifetime it moves to
    /// a cell free of all active snakes and its age returns to 0. Then the
    /// frame is appended to `target` and the tick ends with `Continue`.
    ///
    /// The tick fails with `NoFreeCell` exactly when the food is due to
    /// move and every cell of the grid lies under an active snake. The
    /// snakes have moved by then; the food stays and nothing is painted.
    pub fn draw(&mut self, target: &mut Vec<Block<T>>) -> (outcome: Result<GameStatus, GameError>)
        requires
            old(self).wf(),
        ensures
            final(self).wf(),
            final(self)@.snakes == old(self)@.snakes_after_tick(),
            forall|i: int|
                0 <= i < 3 ==> old(self)@.snakes[i].len <= (#[trigger] final(self)@.snakes[i]).len
                    <= old(self)@.snakes[i].len + 1 && final(self)@.snakes[i].len
                    <= MAX_SNAKE_SIZE - 1,
            final(self)@.same_setup(old(self)@),
            final(self)@.food_age == old(self)@.food_age_after_tick(),
            outcome == Ok::<GameStatus, GameError>(GameStatus::End) <==> old(self)@.crashes(),
            outcome is Err <==> !old(self)@.crashes() && old(self)@.relocation_due()
                && !has_free_cell(
                final(self)@.snakes,
                final(self)@.player_count,
                final(self)@.grid_x(),
                final(self)@.grid_y(),
            ),
            outcome == Ok::<GameStatus, GameError>(GameStatus::Continue) ==> free_cell(
                final(self)@.snakes,
                final(self)@.player_count,
                final(self)@.grid_x(),
                final(self)@.grid_y(),
                final(self)@.food.place,
            ),
            !(outcome == Ok::<GameStatus, GameError>(GameStatus::Continue) && old(
                self,
            )@.relocation_due()) ==> final(self)@.food.place == old(self)@.food.place,
            final(target)@ == if outcome == Ok::<GameStatus, GameError>(GameStatus::Continue) {
                old(target)@ + final(self)@.frame()
            } else {
                old(target)@
            },
    {
        let ghost g = self@;
        let mut hit = false;
        let mut i: usize = 0;
        while i < self.player_count
            invariant
                self.wf(),
                old(self).wf(),
                g == old(self)@,
                g.wf(),
                i <= self.player_count,
                self@.same_setup(g),
                self@.food == g.food,
                self@.food_age == g.food_age,
                forall|j: int| 0 <= j < i ==> self@.snakes[j] == g.snake_after_tick(j),
                forall|j: int| i <= j < 3 ==> self@.snakes[j] == g.snakes[j],
                forall|k: int| 0 <= k < i ==> !g.crashes_at(k),
                hit == g.eaten_before(i as int),
            decreases self.player_count - i,
        {
            let ghost before = self@;
            proof {
                lemma_step_preserves(g.snakes[i as int]);
            }
            self.snakes[i].make_step();
            proof {
                assert(self@.snakes =~= before.snakes.update(
                    i as int,
                    g.snakes[i as int].step(),
                ));
                before.lemma_put_snake(i as int, g.snakes[i as int].step());
            }
            if self.snakes[i].bites_itself() {
                proof {
                    assert(g.crashes_at(i as int));
                    old(self).lemma_tick_growth();
                }
                return Ok(GameStatus::End);
            }
            if !hit {
                hit = self.snakes[i].contains(self.food.get_pixel().0);
                if hit {
                    let ghost stepped = self@;
                    self.snakes[i].grow();
                    proof {
                        assert(self@.snakes =~= stepped.snakes.update(
                            i as int,
                            g.snakes[i as int].step().grow(),
                        ));
                        stepped.lemma_put_snake(i as int, g.snakes[i as int].step().grow());
                    }
                }
            }
            proof {
                if hit && !g.eaten_before(i as int) {
                    assert(g.eats_at(i as int));
                }
            }
            i += 1;
        }
        proof {
            assert(self@.snakes =~= g.snakes_after_tick());
            old(self).lemma_tick_growth();
        }
        let age: u8 = self.food_age + 1;
        if age >= self.food_lifetime || hit {
            self.food_age = 0;
            match self.food.replace(&self.snakes, self.player_count) {
                Ok(()) => {},
                Err(e) => {
                    return Err(e);
                },
            }
        } else {
            self.food_age = age;
            proof {
                assert forall|k: int| 0 <= k < 3 && k < g.player_count implies !(
                #[trigger] self@.snakes[k]).contains(g.food.place) by {}
            }
        }
        self.render(target);
        Ok(GameStatus::Continue)
    }
}

} // verus!
