//! What a tick reports.

use vstd::prelude::*;

verus! {

/// Whether the game goes on after a tick.
#[derive(Clone, Copy, Debug, PartialEq, Eq, Structural)]
pub enum GameStatus {
    /// The game goes on.
    Continue,
    /// A snake ran into itself: the game is over.
    End,
}

/// Why the food could not be placed.
#[derive(Clone, Copy, Debug, PartialEq, Eq, Structural)]
pub enum GameError {
    /// Every cell of the grid lies under an active snake.
    NoFreeCell,
}

} // verus!
