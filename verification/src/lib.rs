//! A grid-based snake engine for small pixel-addressable displays.
//!
//! The engine advances up to three snakes one tick at a time on a toroidal
//! grid, places food on free cells, and emits every cell as a magnified
//! block, so that a driver only has to paint filled rectangles.
//!
//! - [`direction`]: the five directions and the wrap-around step.
//! - [`snake`]: a snake in a fixed buffer: stepping, growing, membership.
//! - [`food`]: the food cell and its placement on a free cell.
//! - [`game`]: the tick that moves snakes, feeds them and ends the game.
//! - [`display`]: the magnification of cells to blocks.
//!
//! Every type has a mathematical state, its view, and each function says in
//! its contract what it does to that state. A call that meets the contract
//! does not panic in the engine's own code.

pub mod direction;
pub mod display;
pub mod food;
pub mod game;
pub mod point;
pub mod snake;
pub mod status;

pub use direction::Direction;
pub use display::{Block, ScaledDisplay};
pub use food::Food;
pub use game::SnakeGame;
pub use point::{Pixel, Point, Size};
pub use snake::{Snake, SnakeIntoIterator};
pub use status::{GameError, GameStatus};
