//! The place of the agent that is still to be written.

use vstd::prelude::*;
use crate::agents::Agent;
use crate::board::Board;
use crate::error::GameError;
use crate::grid::Grid;
use crate::player::Player;

verus! {

/// The agent whose strategy has not been supplied.
pub struct SolutionAgent {}

impl Agent for SolutionAgent {
    /// The answer is `Unimplemented`, for every board and player.
    open spec fn promises(
        g: Grid,
        player: Player,
        answer: Result<(i32, usize, usize), GameError>,
    ) -> bool {
        answer == Err::<(i32, usize, usize), GameError>(GameError::Unimplemented)
    }

    fn solve(board: &mut Board, player: Player) -> (answer: Result<(i32, usize, usize), GameError>) {
        Err(GameError::Unimplemented)
    }
}

} // verus!
