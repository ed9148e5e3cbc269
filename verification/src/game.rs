//! A whole game: two agents move in turn until no cell is empty.

use vstd::prelude::*;
use crate::agents::Agent;
use crate::board::{Board, Cell};
use crate::census::{lemma_census, lemma_count_with_cell};
use crate::error::GameError;
use crate::grid::{can_apply, empty_cells, mark_of, played, score_of, with_cell, Grid};
use crate::player::Player;

verus! {

/// How a game has ended.
#[derive(Clone, Copy, Debug, PartialEq, Eq, Structural)]
pub enum Outcome {
    XWins,
    OWins,
    Draw,
}

/// The outcome that a final score stands for: `X` wins with a positive
/// score, `O` with a negative one, and `0` is a draw.
pub open spec fn outcome_of(score: int) -> Outcome {
    if score > 0 {
        Outcome::XWins
    } else if score < 0 {
        Outcome::OWins
    } else {
        Outcome::Draw
    }
}

/// Who has won with this final score.
pub fn outcome(score: i32) -> (result: Outcome)
    ensures
        result == outcome_of(score as int),
{
    if score > 0 {
        Outcome::XWins
    } else if score < 0 {
        Outcome::OWins
    } else {
        Outcome::Draw
    }
}

/// The players take turns, `first` beginning.
pub open spec fn alternating(ms: Seq<((usize, usize), Player)>, first: Player) -> bool {
    forall|k: int|
        0 <= k < ms.len() ==> (#[trigger] ms[k]).1 == (if k % 2 == 0 {
            first
        } else {
            first.flipped()
        })
}

/// Each move of `ms`, made in order from `g`, goes onto a cell that is empty
/// at that moment.
pub open spec fn all_legal(g: Grid, ms: Seq<((usize, usize), Player)>) -> bool {
    forall|k: int|
        0 <= k < ms.len() ==> can_apply(
            played(g, #[trigger] ms.take(k)),
            ms[k].0.0 as int,
            ms[k].0.1 as int,
        )
}

/// An agent's answer does not lead to a move on `g`, and `e` says why: the
/// agent failed with `e`, or it named a cell that is not empty and `e` is
/// `IllegalMove`.
pub open spec fn refused(g: Grid, answer: Result<(i32, usize, usize), GameError>, e: GameError) -> bool {
    match answer {
        Ok((_, row, col)) => !can_apply(g, row as int, col as int) && e == GameError::IllegalMove,
        Err(failure) => e == failure,
    }
}

/// The player whose turn it is after `made` moves, when `X` begins.
pub open spec fn mover(made: int) -> Player {
    if made % 2 == 0 {
        Player::X
    } else {
        Player::O
    }
}

/// Takes an agent's answer for `player`: makes the move it names if that
/// cell is empty. Otherwise the board stays as it is and the error says why
/// no move was made.
pub fn accept(
    board: &mut Board,
    player: Player,
    answer: Result<(i32, usize, usize), GameError>,
) -> (done: Result<(), GameError>)
    requires
        old(board).wf(),
    ensures
        final(board).wf(),
        done.is_ok() <==> (answer matches Ok((_, row, col)) && can_apply(
            old(board)@,
            row as int,
            col as int,
        )),
        done is Ok ==> (answer matches Ok((_, row, col)) && final(board)@ == with_cell(
            old(board)@,
            row as int,
            col as int,
            mark_of(player),
        )),
        done matches Err(e) ==> refused(old(board)@, answer, e) && final(board)@ == old(board)@,
{
    match answer {
        Ok((_, row, col)) => board.try_apply_move((row, col), player),
        Err(e) => Err(e),
    }
}

/// A game as it was played.
#[derive(Debug)]
pub struct GameRecord {
    /// The moves in the order in which they were made.
    pub moves: Vec<((usize, usize), Player)>,
    /// The score of the full board, or what ended the game before.
    pub end: Result<i32, GameError>,
}

/// Plays a game on `board` from its present state: the agent `A` moves for
/// `X`, who begins, and the agent `B` for `O`, in turn, until no cell is
/// empty; the game then ends with the score. An agent that fails, or names
/// a cell that is not empty, ends the game at once with that error. Either
/// way the board holds the moves that were made, and the record lists them.
pub fn play<A: Agent, B: Agent>(board: &mut Board) -> (record: GameRecord)
    requires
        old(board).wf(),
    ensures
        final(board).wf(),
        final(board)@ == played(old(board)@, record.moves@),
        all_legal(old(board)@, record.moves@),
        alternating(record.moves@, Player::X),
        record.moves@.len() + empty_cells(final(board)@).len() == empty_cells(old(board)@).len(),
        record.end matches Ok(score) ==> empty_cells(final(board)@).len() == 0 && score == score_of(
            final(board)@,
        ),
        record.end matches Err(e) ==> empty_cells(final(board)@).len() > 0 && exists|
            answer: Result<(i32, usize, usize), GameError>,
        |
            #![trigger refused(final(board)@, answer, e)]
            refused(final(board)@, answer, e) && (if mover(record.moves@.len() as int)
                == Player::X {
                A::promises(final(board)@, Player::X, answer)
            } else {
                B::promises(final(board)@, Player::O, answer)
            }),
{
    let mut moves: Vec<((usize, usize), Player)> = Vec::new();
    let mut player: Player = Player::X;
    let ghost start: Grid = board@;
    proof {
        lemma_census(start);
    }
    while !board.game_over()
        invariant
            board.wf(),
            start == old(board)@,
            board@ == played(start, moves@),
            all_legal(start, moves@),
            alternating(moves@, Player::X),
            player == mover(moves@.len() as int),
            moves@.len() + empty_cells(board@).len() == empty_cells(start).len(),
        decreases empty_cells(board@).len(),
    {
        let ghost before: Grid = board@;
        let ghost made: Seq<((usize, usize), Player)> = moves@;
        let answer: Result<(i32, usize, usize), GameError> = match player {
            Player::X => A::solve(board, player),
            Player::O => B::solve(board, player),
        };
        let (row, col): (usize, usize) = match answer {
            Ok((_, row, col)) => (row, col),
            Err(_) => (0, 0),
        };
        match accept(board, player, answer) {
            Ok(()) => {},
            Err(e) => {
                return GameRecord { moves, end: Err(e) };
            },
        }
        moves.push(((row, col), player));
        proof {
            lemma_census(before);
            lemma_count_with_cell(before, row as int, col as int, mark_of(player), Cell::Empty);
            lemma_census(board@);
            assert(moves@.drop_last() == made);
            assert(moves@.last() == ((row, col), player));
            assert forall|k: int| 0 <= k < moves@.len() implies can_apply(
                played(start, #[trigger] moves@.take(k)),
                moves@[k].0.0 as int,
                moves@[k].0.1 as int,
            ) by {
                if k < made.len() {
                    assert(moves@.take(k) == made.take(k));
                } else {
                    assert(moves@.take(k) == made);
                }
            }
        }
        player = player.flip();
    }
    let score: i32 = board.score();
    GameRecord { moves, end: Ok(score) }
}

} // verus!
