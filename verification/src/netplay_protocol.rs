//! Game-agnostic wire protocol for the netplay layer.
//!
//! The lobby/match envelope ([`ClientMsg`]/[`ServerMsg`]) is generic; the
//! in-game action rides as an opaque payload that the server never decodes.
//! Players are identified by an abstract [`Seat`] (seat 0 moves first). Each
//! message is one document; the transport delimits them.

use vstd::prelude::*;

verus! {

/// Bumped on any incompatible change to the message types. The server rejects a
/// [`ClientMsg::Hello`] whose `protocol` doesn't match.
pub const PROTOCOL_VERSION: u16 = 1;

/// Messages larger than this are rejected.
pub const MAX_MESSAGE: usize = 65536;

/// Development key id. A convenience default; override in production.
pub const DEV_KEY_ID: u16 = 1;

/// Development token. A convenience default; override in production.
pub const DEV_TOKEN: &'static str = "reversi-dev-token";

/// A connected player, for the lifetime of its connection.
pub type PlayerId = u64;

/// A player as advertised in the lobby presence list.
#[derive(Clone, Debug, PartialEq, Eq)]
pub struct PlayerInfo {
    pub id: PlayerId,
    pub name: String,
}

/// An abstract seat in a match; seat 0 moves first.
#[derive(Clone, Copy, Debug, PartialEq, Eq, Structural)]
pub struct Seat(pub u8);

/// The reference authorization scheme's credential: a versioned shared token.
/// `key_id` selects which key the server checks against, so keys can rotate.
#[derive(Clone, Debug, PartialEq, Eq)]
pub struct SharedTokenCredential {
    pub key_id: u16,
    pub token: String,
}

/// A message from a client to the server.
#[derive(Clone, Debug, PartialEq, Eq)]
pub enum ClientMsg {
    /// First message on connect: display name, protocol version, and an
    /// opaque authorization credential.
    Hello { name: String, protocol: u16, credential: Vec<u8> },
    /// Invite another player (by id) to a game.
    Invite { to: PlayerId },
    /// Accept an invite from `inviter`.
    Accept { inviter: PlayerId },
    /// Decline an invite from `inviter`.
    Decline { inviter: PlayerId },
    /// An opaque in-game payload, to be relayed to the opponent verbatim.
    Game { payload: Vec<u8> },
}

/// A message from the server to a client.
#[derive(Clone, Debug, PartialEq, Eq)]
pub enum ServerMsg {
    /// The other players currently available in the lobby.
    Presence { players: Vec<PlayerInfo> },
    /// You received an invite from player `from` (named `name`).
    Invited { from: PlayerId, name: String },
    /// An invite you sent was declined by player `by`.
    InviteDeclined { by: PlayerId },
    /// Paired with an opponent; you take `seat` (seat 0 moves first).
    Matched { seat: Seat, opponent: String },
    /// An opaque in-game payload from the opponent.
    Game { payload: Vec<u8> },
    /// The opponent disconnected or resigned.
    OpponentLeft,
    /// A protocol-level error (e.g. version mismatch); the connection closes.
    Error { message: String },
}

/// A [`ServerMsg`] with its vectors read as sequences.
pub enum ServerMsgView {
    Presence { players: Seq<PlayerInfo> },
    Invited { from: PlayerId, name: String },
    InviteDeclined { by: PlayerId },
    Matched { seat: Seat, opponent: String },
    Game { payload: Seq<u8> },
    OpponentLeft,
    Error { message: String },
}

impl View for ServerMsg {
    type V = ServerMsgView;

    open spec fn view(&self) -> ServerMsgView {
        match self {
            ServerMsg::Presence { players } => ServerMsgView::Presence { players: players@ },
            ServerMsg::Invited { from, name } => ServerMsgView::Invited { from: *from, name: *name },
            ServerMsg::InviteDeclined { by } => ServerMsgView::InviteDeclined { by: *by },
            ServerMsg::Matched { seat, opponent } => ServerMsgView::Matched { seat: *seat, opponent: *opponent },
            ServerMsg::Game { payload } => ServerMsgView::Game { payload: payload@ },
            ServerMsg::OpponentLeft => ServerMsgView::OpponentLeft,
            ServerMsg::Error { message } => ServerMsgView::Error { message: *message },
        }
    }
}

/// Whether a message body of `len` bytes is small enough to be read.
pub fn within_message_limit(len: usize) -> (r: bool)
    ensures
        r == (len <= MAX_MESSAGE),
{
    len <= MAX_MESSAGE
}

} // verus!
