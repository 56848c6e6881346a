use rand_core::{Error, RngCore};
use snake::{
    Block, Direction, GameError, GameStatus, Point, Size, Snake, SnakeGame,
};

/// A random source that replays a list of values over and over.
struct Loop {
    values: Vec<u32>,
    drawn: usize,
}

impl RngCore for Loop {
    fn next_u32(&mut self) -> u32 {
        let value = self.values[self.drawn % self.values.len()];
        self.drawn += 1;
        value
    }

    fn next_u64(&mut self) -> u64 {
        u64::from(self.next_u32())
    }

    fn fill_bytes(&mut self, dest: &mut [u8]) {
        for byte in dest.iter_mut() {
            *byte = self.next_u32().to_le_bytes()[0];
        }
    }

    fn try_fill_bytes(&mut self, dest: &mut [u8]) -> Result<(), Error> {
        self.fill_bytes(dest);
        Ok(())
    }
}

/// A source that makes the food visit the given cells in turn.
fn visiting(cells: &[(u8, u8)]) -> Loop {
    let values = cells.iter().map(|(x, y)| (u32::from(*x) << 24) | (u32::from(*y) << 16)).collect();
    Loop { values, drawn: 0 }
}

const SNAKE_COLORS: [u8; 3] = [10, 20, 30];
const FOOD_COLOR: u8 = 99;

type Game = SnakeGame<20, u8, Loop>;

fn game(size: (u8, u8), scale: (u8, u8), source: Loop, lifetime: u8, players: usize) -> Game {
    Game::new(size.0, size.1, scale.0, scale.1, source, SNAKE_COLORS, FOOD_COLOR, lifetime, players)
        .ok()
        .unwrap()
}

fn at(x: i32, y: i32) -> Point {
    Point { x, y }
}

fn cells<const N: usize>(snake: &Snake<u8, N>) -> Vec<Point> {
    let mut out = Vec::new();
    let mut cursor = snake.into_iter();
    while let Some(part) = cursor.next() {
        out.push(part.0);
    }
    out
}

fn dot(x: i32, y: i32, color: u8) -> Block<u8> {
    Block { top_left: at(x, y), size: Size { width: 1, height: 1 }, color }
}

#[test]
fn a_new_game_seeds_three_snakes() {
    let game = game((128, 64), (3, 3), visiting(&[(10, 10)]), 50, 3);
    assert_eq!(game.player_count(), 3);
    let snakes = game.snakes();
    assert_eq!(cells(&snakes[0]), vec![at(0, 0); 5]);
    assert_eq!(cells(&snakes[1]), vec![at(0, 7); 5]);
    assert_eq!(cells(&snakes[2]), vec![at(31, 0); 5]);
    assert_eq!(snakes[0].direction(), Direction::Right);
    assert_eq!(snakes[1].direction(), Direction::Right);
    assert_eq!(snakes[2].direction(), Direction::Left);
    assert_eq!(snakes[0].color(), 10);
    assert_eq!(snakes[1].color(), 20);
    assert_eq!(snakes[2].color(), 30);
}

#[test]
fn a_grid_of_one_cell_has_no_room_for_food() {
    let one = Game::new(1, 1, 1, 1, visiting(&[(0, 0)]), SNAKE_COLORS, FOOD_COLOR, 10, 1);
    assert_eq!(one.err(), Some(GameError::NoFreeCell));
    let scaled = Game::new(5, 7, 3, 4, visiting(&[(0, 0)]), SNAKE_COLORS, FOOD_COLOR, 10, 3);
    assert_eq!(scaled.err(), Some(GameError::NoFreeCell));
    let two = Game::new(2, 1, 1, 1, visiting(&[(0, 0)]), SNAKE_COLORS, FOOD_COLOR, 10, 3);
    assert!(two.is_ok());
    let tall = Game::new(1, 2, 1, 1, visiting(&[(0, 0)]), SNAKE_COLORS, FOOD_COLOR, 10, 3);
    assert!(tall.is_ok());
}

#[test]
fn the_first_food_avoids_the_snakes() {
    let game = game((8, 8), (1, 1), visiting(&[(0, 0), (0, 7), (2, 5)]), 10, 2);
    let mut frame = Vec::new();
    game.render(&mut frame);
    assert_eq!(frame.last(), Some(&dot(2, 5, FOOD_COLOR)));
}

#[test]
fn render_paints_the_snakes_and_then_the_food() {
    let game = game((8, 8), (1, 1), visiting(&[(4, 4)]), 10, 1);
    let mut frame = Vec::new();
    game.render(&mut frame);
    let mut expected = vec![dot(0, 0, 10); 5];
    expected.push(dot(4, 4, FOOD_COLOR));
    assert_eq!(frame, expected);
}

#[test]
fn one_tick_moves_the_head_and_paints_the_frame() {
    let mut game = game((8, 8), (1, 1), visiting(&[(4, 4)]), 10, 1);
    let mut frame = Vec::new();
    assert_eq!(game.draw(&mut frame), Ok(GameStatus::Continue));
    assert_eq!(cells(&game.snakes()[0]), vec![at(1, 0), at(0, 0), at(0, 0), at(0, 0), at(0, 0)]);
    assert_eq!(
        frame,
        vec![
            dot(1, 0, 10),
            dot(0, 0, 10),
            dot(0, 0, 10),
            dot(0, 0, 10),
            dot(0, 0, 10),
            dot(4, 4, FOOD_COLOR),
        ]
    );
}

#[test]
fn a_turn_takes_effect_on_the_next_tick() {
    let mut game = game((8, 8), (1, 1), visiting(&[(4, 4)]), 10, 1);
    let mut frame = Vec::new();
    assert_eq!(game.draw(&mut frame), Ok(GameStatus::Continue));
    game.set_direction(0, Direction::Down);
    assert_eq!(cells(&game.snakes()[0])[0], at(1, 0));
    assert_eq!(game.draw(&mut frame), Ok(GameStatus::Continue));
    assert_eq!(&cells(&game.snakes()[0])[..3], &[at(1, 1), at(1, 0), at(0, 0)]);
}

#[test]
fn resting_slots_neither_move_nor_show() {
    let mut game = game((8, 8), (1, 1), visiting(&[(4, 4)]), 10, 1);
    game.set_direction(2, Direction::Up);
    let mut frame = Vec::new();
    for _ in 0..3 {
        assert_eq!(game.draw(&mut frame), Ok(GameStatus::Continue));
    }
    assert_eq!(cells(&game.snakes()[1]), vec![at(0, 7); 5]);
    assert_eq!(cells(&game.snakes()[2]), vec![at(31, 0); 5]);
    assert_eq!(game.snakes()[2].direction(), Direction::Up);
    assert_eq!(frame.len(), 3 * 6);
    assert!(frame.iter().all(|block| block.color == 10 || block.color == FOOD_COLOR));
}

#[test]
fn every_cell_is_magnified_by_the_scale() {
    let mut game = game((128, 64), (3, 2), visiting(&[(10, 11)]), 50, 3);
    let mut frame = Vec::new();
    assert_eq!(game.draw(&mut frame), Ok(GameStatus::Continue));
    assert_eq!(frame.len(), 16);
    let size = Size { width: 3, height: 2 };
    assert!(frame.iter().all(|block| block.size == size));
    assert_eq!(frame[0], Block { top_left: at(3, 0), size, color: 10 });
    assert_eq!(frame[1], Block { top_left: at(0, 0), size, color: 10 });
    assert_eq!(frame[5], Block { top_left: at(3, 14), size, color: 20 });
    assert_eq!(frame[6], Block { top_left: at(0, 14), size, color: 20 });
    assert_eq!(frame[10], Block { top_left: at(90, 0), size, color: 30 });
    assert_eq!(frame[11], Block { top_left: at(93, 0), size, color: 30 });
    assert_eq!(frame[15], Block { top_left: at(30, 22), size, color: FOOD_COLOR });
}

#[test]
fn the_grid_is_the_surface_divided_by_the_scale() {
    let mut game = game((128, 64), (3, 3), visiting(&[(41, 20), (43, 23)]), 1, 1);
    let mut frame = Vec::new();
    game.render(&mut frame);
    assert_eq!(frame.last().unwrap().top_left, at(123, 60));
    frame.clear();
    assert_eq!(game.draw(&mut frame), Ok(GameStatus::Continue));
    assert_eq!(frame.last().unwrap().top_left, at(3, 6));
}

#[test]
fn a_frame_is_appended_to_what_the_target_holds() {
    let mut game = game((8, 8), (1, 1), visiting(&[(4, 4)]), 10, 1);
    let mut frame = vec![dot(7, 7, 1)];
    assert_eq!(game.draw(&mut frame), Ok(GameStatus::Continue));
    assert_eq!(frame.len(), 7);
    assert_eq!(frame[0], dot(7, 7, 1));
    assert_eq!(frame[1], dot(1, 0, 10));
}

#[test]
fn running_into_itself_ends_the_game_on_that_tick() {
    let mut game = game((8, 8), (1, 1), visiting(&[(4, 4)]), 10, 1);
    let mut frame = Vec::new();
    for turn in [Direction::Right, Direction::Down, Direction::Left] {
        game.set_direction(0, turn);
        assert_eq!(game.draw(&mut frame), Ok(GameStatus::Continue));
    }
    assert_eq!(frame.len(), 18);
    game.set_direction(0, Direction::Up);
    assert_eq!(game.draw(&mut frame), Ok(GameStatus::End));
    assert_eq!(frame.len(), 18);
    assert_eq!(
        cells(&game.snakes()[0]),
        vec![at(0, 0), at(0, 1), at(1, 1), at(1, 0), at(0, 0)]
    );
}

#[test]
fn standing_still_ends_the_game() {
    let mut game = game((8, 8), (1, 1), visiting(&[(4, 4)]), 10, 1);
    let mut frame = Vec::new();
    for _ in 0..6 {
        assert_eq!(game.draw(&mut frame), Ok(GameStatus::Continue));
    }
    game.set_direction(0, Direction::Still);
    assert_eq!(game.draw(&mut frame), Ok(GameStatus::End));
    let body = cells(&game.snakes()[0]);
    assert_eq!(body[0], at(6, 0));
    assert_eq!(body[1], at(6, 0));
}

#[test]
fn the_end_stops_the_snakes_that_have_not_moved_yet() {
    let mut game = game((8, 8), (1, 1), visiting(&[(4, 4)]), 10, 3);
    game.set_direction(1, Direction::Still);
    let mut frame = Vec::new();
    assert_eq!(game.draw(&mut frame), Ok(GameStatus::End));
    assert!(frame.is_empty());
    assert_eq!(cells(&game.snakes()[0])[0], at(1, 0));
    assert_eq!(cells(&game.snakes()[1]), vec![at(0, 7); 5]);
    assert_eq!(cells(&game.snakes()[2]), vec![at(31, 0); 5]);
}

#[test]
fn the_end_keeps_the_food_and_its_age() {
    let mut game = game((8, 8), (1, 1), visiting(&[(4, 4), (5, 5)]), 2, 1);
    let mut frame = Vec::new();
    assert_eq!(game.draw(&mut frame), Ok(GameStatus::Continue));
    game.set_direction(0, Direction::Still);
    assert_eq!(game.draw(&mut frame), Ok(GameStatus::End));
    frame.clear();
    game.render(&mut frame);
    assert_eq!(frame.last(), Some(&dot(4, 4, FOOD_COLOR)));
    game.set_direction(0, Direction::Down);
    assert_eq!(game.draw(&mut frame), Ok(GameStatus::Continue));
    assert_eq!(frame.last(), Some(&dot(5, 5, FOOD_COLOR)));
}

#[test]
fn eating_grows_the_snake_and_moves_the_food() {
    let mut game = game((8, 8), (1, 1), visiting(&[(1, 0), (5, 5)]), 100, 1);
    let mut frame = Vec::new();
    assert_eq!(game.draw(&mut frame), Ok(GameStatus::Continue));
    assert_eq!(game.snakes()[0].len(), 6);
    assert_eq!(
        cells(&game.snakes()[0]),
        vec![at(1, 0), at(0, 0), at(0, 0), at(0, 0), at(0, 0), at(0, 0)]
    );
    assert_eq!(frame.len(), 7);
    assert_eq!(frame[6], dot(5, 5, FOOD_COLOR));
    frame.clear();
    assert_eq!(game.draw(&mut frame), Ok(GameStatus::Continue));
    assert_eq!(game.snakes()[0].len(), 6);
    assert_eq!(frame[6], dot(5, 5, FOOD_COLOR));
}

#[test]
fn only_the_first_snake_on_the_food_grows() {
    let mut game = game((8, 9), (1, 1), visiting(&[(0, 8), (4, 4)]), 100, 2);
    game.set_direction(0, Direction::Up);
    game.set_direction(1, Direction::Down);
    let mut frame = Vec::new();
    assert_eq!(game.draw(&mut frame), Ok(GameStatus::Continue));
    assert_eq!(cells(&game.snakes()[0])[0], at(0, 8));
    assert_eq!(cells(&game.snakes()[1])[0], at(0, 8));
    assert_eq!(game.snakes()[0].len(), 6);
    assert_eq!(game.snakes()[1].len(), 5);
    assert_eq!(frame.last(), Some(&dot(4, 4, FOOD_COLOR)));
}

#[test]
fn old_food_moves_when_its_lifetime_is_over() {
    let mut game = game((8, 8), (1, 1), visiting(&[(4, 4), (5, 5), (6, 6)]), 3, 1);
    let mut seen = Vec::new();
    for _ in 0..7 {
        let mut frame = Vec::new();
        assert_eq!(game.draw(&mut frame), Ok(GameStatus::Continue));
        seen.push(frame.last().unwrap().top_left);
    }
    assert_eq!(
        seen,
        vec![at(4, 4), at(4, 4), at(5, 5), at(5, 5), at(5, 5), at(6, 6), at(6, 6)]
    );
}

#[test]
fn food_without_a_lifetime_moves_on_every_tick() {
    for lifetime in [0u8, 1] {
        let mut game = game((8, 8), (1, 1), visiting(&[(4, 4), (5, 5), (6, 6)]), lifetime, 1);
        let mut seen = Vec::new();
        for _ in 0..4 {
            let mut frame = Vec::new();
            assert_eq!(game.draw(&mut frame), Ok(GameStatus::Continue));
            seen.push(frame.last().unwrap().top_left);
        }
        assert_eq!(seen, vec![at(5, 5), at(6, 6), at(4, 4), at(5, 5)]);
    }
}

#[test]
fn the_longest_lifetime_does_not_overflow() {
    let mut game = game((8, 8), (1, 1), visiting(&[(4, 4), (5, 5)]), 255, 1);
    let mut frame = Vec::new();
    for tick in 1..=600 {
        frame.clear();
        assert_eq!(game.draw(&mut frame), Ok(GameStatus::Continue));
        let expected = if (tick / 255) % 2 == 0 { at(4, 4) } else { at(5, 5) };
        assert_eq!(frame.last().unwrap().top_left, expected);
    }
}

#[test]
fn a_full_grid_is_reported_by_the_tick() {
    let mut game = game((2, 1), (1, 1), visiting(&[(1, 0)]), 100, 1);
    let mut frame = Vec::new();
    game.render(&mut frame);
    assert_eq!(frame.last(), Some(&dot(1, 0, FOOD_COLOR)));
    frame.clear();
    assert_eq!(game.draw(&mut frame), Err(GameError::NoFreeCell));
    assert!(frame.is_empty());
    assert_eq!(game.snakes()[0].len(), 6);
    assert_eq!(cells(&game.snakes()[0])[0], at(1, 0));
    game.render(&mut frame);
    assert_eq!(frame.last(), Some(&dot(1, 0, FOOD_COLOR)));
}

#[test]
fn a_snake_from_beyond_the_grid_walks_in() {
    let mut game = game((8, 8), (1, 1), visiting(&[(4, 4)]), 100, 3);
    let mut frame = Vec::new();
    for _ in 0..24 {
        frame.clear();
        assert_eq!(game.draw(&mut frame), Ok(GameStatus::Continue));
    }
    assert_eq!(
        cells(&game.snakes()[2]),
        vec![at(7, 0), at(8, 0), at(9, 0), at(10, 0), at(11, 0)]
    );
    assert_eq!(frame[10], dot(7, 0, 30));
    assert_eq!(frame[14], dot(11, 0, 30));
}

#[test]
fn lengths_never_shrink_jump_or_pass_the_limit() {
    let walk: Vec<(u8, u8)> = (0..8u8).map(|k| ((k * 3) % 8, 0)).collect();
    let mut game: SnakeGame<8, u8, Loop> =
        SnakeGame::new(8, 8, 1, 1, visiting(&walk), SNAKE_COLORS, FOOD_COLOR, 4, 2).ok().unwrap();
    let mut frame = Vec::new();
    let mut grown = 0;
    for _ in 0..200 {
        let before: Vec<usize> = game.snakes().iter().map(|s| s.len()).collect();
        frame.clear();
        assert_eq!(game.draw(&mut frame), Ok(GameStatus::Continue));
        let after: Vec<usize> = game.snakes().iter().map(|s| s.len()).collect();
        for slot in 0..3 {
            assert!(before[slot] <= after[slot]);
            assert!(after[slot] <= before[slot] + 1);
            assert!(after[slot] <= 7);
        }
        assert!(after.iter().sum::<usize>() <= before.iter().sum::<usize>() + 1);
        grown += after[0] - before[0];
        let food = frame.last().unwrap().top_left;
        for snake in game.snakes().iter().take(2) {
            assert!(!snake.contains(food));
        }
    }
    assert_eq!(grown, 2);
    assert_eq!(game.snakes()[0].len(), 7);
    assert_eq!(game.snakes()[1].len(), 5);
    assert_eq!(game.snakes()[2].len(), 5);
}
