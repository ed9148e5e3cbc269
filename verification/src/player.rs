//! The two players and whose turn comes next.

use vstd::prelude::*;

verus! {

/// One of the two players. `X` moves first.
#[derive(Clone, Copy, Debug, PartialEq, Eq, Structural)]
pub enum Player {
    X,
    O,
}

impl Player {
    /// The opponent of this player.
    pub open spec fn flipped(self) -> Player {
        match self {
            Player::X => Player::O,
            Player::O => Player::X,
        }
    }

    /// The letter by which the player is known.
    pub open spec fn letter(self) -> Seq<char> {
        match self {
            Player::X => "X"@,
            Player::O => "O"@,
        }
    }

    /// The player's name as text: `X` or `O`.
    pub fn to_string(&self) -> (name: String)
        ensures
            name@ == self.letter(),
    {
        match self {
            Player::X => String::from_str("X"),
            Player::O => String::from_str("O"),
        }
    }

    /// Hands the turn to the other player.
    pub fn flip(self) -> (other: Player)
        ensures
            other == self.flipped(),
    {
        match self {
            Player::X => Player::O,
            Player::O => Player::X,
        }
    }
}

} // verus!
