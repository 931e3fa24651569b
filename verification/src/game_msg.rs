//! The Reversi in-game message carried as the netplay layer's opaque payload,
//! and the mapping from netplay seats to players.

use vstd::prelude::*;

use crate::netplay_protocol::Seat;
use crate::player::Player;

verus! {

/// A Reversi in-game action. Rides inside the netplay `Game` payload.
///
/// Passes are never sent: both clients derive forced passes locally. Leaving a
/// game isn't a message either: the server reports a departed opponent.
#[derive(Clone, Copy, Debug, PartialEq, Eq, Structural)]
pub enum GameMsg {
    /// Place a disc on the square with this flat index (`0..64`).
    Move { square: u8 },
    /// Start a new game (both sides reset).
    Restart,
}

/// Map a netplay seat to a Reversi player (seat 0 = Black, who moves first).
pub fn player_of(seat: Seat) -> (r: Player)
    ensures
        r == (if seat.0 == 0 {
            Player::Black
        } else {
            Player::White
        }),
{
    if seat.0 == 0 {
        Player::Black
    } else {
        Player::White
    }
}

} // verus!
