//! The ways in which a game can fail.

use vstd::prelude::*;

verus! {

/// A failure of the game. None of them is recovered from: each ends the game.
#[derive(Clone, Copy, Debug, PartialEq, Eq, Structural)]
pub enum GameError {
    /// A layout that no board can be built from.
    InvalidLayout,
    /// A move onto a cell that is not empty.
    IllegalMove,
    /// The retraction of a move from a cell that does not hold the player's mark.
    IllegalUndo,
    /// An agent did not answer within its time budget.
    Forfeit,
    /// An agent whose strategy has not been written yet was asked for a move.
    Unimplemented,
}

} // verus!
