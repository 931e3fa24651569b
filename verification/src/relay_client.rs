//! The relay client's view of the server: the events its game loop handles,
//! and the mapping from protocol colors to players.

use vstd::prelude::*;

use crate::player::Player;
use crate::protocol::{Color, GameMsg, PlayerId, PlayerInfo, ServerMsg};

verus! {

/// A message from the network, handed to the game loop as an event.
#[derive(Clone, Debug, PartialEq, Eq)]
pub enum NetEvent {
    /// The other players currently available in the lobby.
    Presence(Vec<PlayerInfo>),
    /// You received an invite.
    Invited { from: PlayerId, name: String },
    /// An invite you sent was declined.
    InviteDeclined { by: PlayerId },
    /// Paired with an opponent; the local player controls `color`.
    Matched { color: Color, opponent: String },
    /// An in-game message from the opponent.
    Remote(GameMsg),
    /// The opponent disconnected or resigned (server-side).
    OpponentLeft,
    /// The connection closed.
    Disconnected,
    /// A protocol/connection error.
    Error(String),
}

impl NetEvent {
    /// Whether the connection's reading ends after this event.
    pub fn is_terminal(&self) -> (r: bool)
        ensures
            r == (self is Disconnected || self is OpponentLeft || self is Error),
    {
        match self {
            NetEvent::Disconnected | NetEvent::OpponentLeft | NetEvent::Error(_) => true,
            _ => false,
        }
    }
}

/// The event a server message surfaces as.
pub fn server_msg_to_event(msg: ServerMsg) -> (r: NetEvent)
    ensures
        match msg {
            ServerMsg::Presence { players } => r == NetEvent::Presence(players),
            ServerMsg::Invited { from, name } => r == (NetEvent::Invited { from, name }),
            ServerMsg::InviteDeclined { by } => r == (NetEvent::InviteDeclined { by }),
            ServerMsg::Matched { your_color, opponent } => r == (NetEvent::Matched {
                color: your_color,
                opponent,
            }),
            ServerMsg::Game(game) => r == NetEvent::Remote(game),
            ServerMsg::OpponentLeft => r == NetEvent::OpponentLeft,
            ServerMsg::Error(message) => r == NetEvent::Error(message),
        },
{
    match msg {
        ServerMsg::Presence { players } => NetEvent::Presence(players),
        ServerMsg::Invited { from, name } => NetEvent::Invited { from, name },
        ServerMsg::InviteDeclined { by } => NetEvent::InviteDeclined { by },
        ServerMsg::Matched { your_color, opponent } => NetEvent::Matched { color: your_color, opponent },
        ServerMsg::Game(game) => NetEvent::Remote(game),
        ServerMsg::OpponentLeft => NetEvent::OpponentLeft,
        ServerMsg::Error(message) => NetEvent::Error(message),
    }
}

/// Map a protocol color to a player.
pub fn player_of(color: Color) -> (r: Player)
    ensures
        r == match color {
            Color::Black => Player::Black,
            Color::White => Player::White,
        },
{
    match color {
        Color::Black => Player::Black,
        Color::White => Player::White,
    }
}

} // verus!
