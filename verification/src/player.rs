//! The two sides, and what can sit on a square.

use vstd::prelude::*;

verus! {

/// Side length of the board.
pub const BOARD_SIZE: usize = 8;

/// Number of squares on the board.
pub const NUM_SQUARES: usize = 64;

/// One of the two players. Black moves first, by convention.
#[derive(Clone, Copy, PartialEq, Eq, Structural, Hash, Debug)]
pub enum Player {
    Black,
    White,
}

/// The other player, as a mathematical function.
pub open spec fn other(p: Player) -> Player {
    match p {
        Player::Black => Player::White,
        Player::White => Player::Black,
    }
}

impl Player {
    /// The other player.
    pub fn opponent(self) -> (r: Player)
        ensures
            r == other(self),
            r != self,
    {
        match self {
            Player::Black => Player::White,
            Player::White => Player::Black,
        }
    }
}

/// Taking the opponent twice gives back the same player.
pub proof fn lemma_opponent_involution(p: Player)
    ensures
        other(other(p)) == p,
        other(p) != p,
{
}

/// What occupies one square: nothing, or a disc belonging to a player.
#[derive(Clone, Copy, PartialEq, Eq, Structural, Debug)]
pub enum Cell {
    Empty,
    Disc(Player),
}

} // verus!
