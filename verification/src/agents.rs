//! The agents: strategies that choose the next move.

use vstd::prelude::*;
use crate::board::{lemma_position_bound, Board, Cell};
use crate::census::lemma_census;
use crate::error::GameError;
use crate::grid::{count_of, empty_cells, Grid};
use crate::player::Player;
use crate::random::random_below;

verus! {

/// A strategy. It is asked for a move only while some cell is empty, and
/// answers with its estimate of the final score and the row and column of
/// its move. It may try moves on the board and retract them, but hands the
/// board back as it got it. That the cell it names is empty is for the
/// caller to check.
pub trait Agent {
    /// What the agent promises of its answer for `player` on the grid `g`.
    spec fn promises(g: Grid, player: Player, answer: Result<(i32, usize, usize), GameError>) -> bool;

    /// Chooses a move for `player`.
    fn solve(board: &mut Board, player: Player) -> (answer: Result<(i32, usize, usize), GameError>)
        requires
            old(board).wf(),
            empty_cells(old(board)@).len() > 0,
        ensures
            final(board).wf(),
            final(board)@ == old(board)@,
            Self::promises(old(board)@, player, answer),
    ;
}

/// Moves onto the first empty cell in row-major order.
pub struct FirstMoveAgent {}

impl Agent for FirstMoveAgent {
    /// The answer is the first of the empty cells, with an estimate of `0`.
    open spec fn promises(
        g: Grid,
        player: Player,
        answer: Result<(i32, usize, usize), GameError>,
    ) -> bool {
        answer == Ok::<(i32, usize, usize), GameError>(
            (0i32, empty_cells(g)[0].0, empty_cells(g)[0].1),
        )
    }

    fn solve(board: &mut Board, player: Player) -> (answer: Result<(i32, usize, usize), GameError>) {
        let open: Vec<(usize, usize)> = board.moves();
        let m: (usize, usize) = open[0];
        Ok((0, m.0, m.1))
    }
}

/// Moves onto an empty cell chosen at random.
pub struct RandomAgent {}

impl RandomAgent {
    /// The move that a draw stands for: the empty cell of that number in
    /// row-major order, counted from `0`.
    pub fn pick(board: &Board, draw: usize) -> (m: (usize, usize))
        requires
            board.wf(),
            draw < empty_cells(board@).len(),
        ensures
            m == empty_cells(board@)[draw as int],
    {
        let open: Vec<(usize, usize)> = board.moves();
        open[draw]
    }
}

impl Agent for RandomAgent {
    /// The answer is one of the empty cells, with an estimate of `0`.
    open spec fn promises(
        g: Grid,
        player: Player,
        answer: Result<(i32, usize, usize), GameError>,
    ) -> bool {
        answer matches Ok((estimate, row, col)) && estimate == 0 && empty_cells(g).contains(
            (row, col),
        )
    }

    fn solve(board: &mut Board, player: Player) -> (answer: Result<(i32, usize, usize), GameError>) {
        let open: usize = board.moves().len();
        let draw: usize = random_below(open);
        let m: (usize, usize) = Self::pick(board, draw);
        Ok((0, m.0, m.1))
    }
}

/// The cell that the scripted agent names when `marks` moves have been made
/// on a board of the given size: cell number `marks` in row-major order.
pub open spec fn scripted_cell(size: int, marks: int) -> (usize, usize) {
    ((marks / size) as usize, (marks % size) as usize)
}

/// Follows a fixed script: its move number `k` of a game, counted from `0`
/// over the moves of both players, names cell number `k` of the board in
/// row-major order, whether that cell is empty or not.
pub struct TestAgent {}

impl Agent for TestAgent {
    /// The answer is the cell that the script names after the moves made so
    /// far, with an estimate of `0`.
    open spec fn promises(
        g: Grid,
        player: Player,
        answer: Result<(i32, usize, usize), GameError>,
    ) -> bool {
        let cell = scripted_cell(
            g.len() as int,
            (count_of(g, Cell::X) + count_of(g, Cell::O)) as int,
        );
        answer == Ok::<(i32, usize, usize), GameError>((0i32, cell.0, cell.1))
    }

    fn solve(board: &mut Board, player: Player) -> (answer: Result<(i32, usize, usize), GameError>) {
        proof {
            lemma_census(board@);
            lemma_position_bound(0, 0, board@.len() as int);
        }
        let size: usize = board.size();
        let marks: usize = board.count(Cell::X) + board.count(Cell::O);
        Ok((0, marks / size, marks % size))
    }
}

} // verus!
