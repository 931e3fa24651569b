//! The client side of the netplay layer: the shared-token credential and the
//! mapping from server messages to the events the game loop handles.
//!
//! The in-game action is opaque here: [`NetEvent::Game`] delivers the payload
//! that the game defines and codes itself.

use vstd::prelude::*;

use crate::netplay_protocol::{
    PlayerId, PlayerInfo, Seat, ServerMsg, SharedTokenCredential, DEV_KEY_ID, DEV_TOKEN,
};
use crate::text::{find_char, parse_u16, parse_u16_str, trim, trimmed};

verus! {

/// Reference credential provider: a versioned shared token.
pub struct SharedToken {
    pub key_id: u16,
    pub token: String,
}

/// An `"id:token"` spec read as `(key id, token)`: the first `:` separates a
/// decimal key id (surrounding whitespace allowed) from the token, which may
/// itself contain `:`.
pub open spec fn token_spec(s: Seq<char>) -> Option<(u16, Seq<char>)> {
    match s.index_of_first(':') {
        None => None,
        Some(i) => match parse_u16(trimmed(s.subrange(0, i))) {
            Some(k) => Some((k, s.subrange(i + 1, s.len() as int))),
            None => None,
        },
    }
}

impl SharedToken {
    /// The development default (matches the server's development key).
    pub fn dev() -> (r: SharedToken)
        ensures
            r.key_id == DEV_KEY_ID,
            r.token@ == DEV_TOKEN@,
    {
        SharedToken { key_id: DEV_KEY_ID, token: DEV_TOKEN.to_owned() }
    }

    /// Parse an `"id:token"` spec (the same shape as one server entry). The
    /// token may itself contain `:`; only the first separates the key id.
    pub fn from_spec(spec: &str) -> (r: Option<SharedToken>)
        ensures
            match token_spec(spec@) {
                None => r is None,
                Some((k, t)) => r matches Some(st) && st.key_id == k && st.token@ == t,
            },
    {
        let colon = match find_char(spec, ':') {
            Some(i) => i,
            None => {
                return None;
            },
        };
        let n = spec.unicode_len();
        let id = trim(spec.substring_char(0, colon));
        let key_id = match parse_u16_str(id) {
            Some(k) => k,
            None => {
                return None;
            },
        };
        let token = spec.substring_char(colon + 1, n);
        Some(SharedToken { key_id, token: token.to_owned() })
    }

    /// The credential this provider presents.
    pub fn credential(&self) -> (r: SharedTokenCredential)
        ensures
            r.key_id == self.key_id,
            r.token == self.token,
    {
        SharedTokenCredential { key_id: self.key_id, token: self.token.clone() }
    }
}

/// A message from the network, handed to the game loop as an event.
#[derive(Clone, Debug, PartialEq, Eq)]
pub enum NetEvent {
    /// The other players currently available in the lobby.
    Presence(Vec<PlayerInfo>),
    /// You received an invite.
    Invited { from: PlayerId, name: String },
    /// An invite you sent was declined.
    InviteDeclined { by: PlayerId },
    /// Paired with an opponent; you take `seat` (seat 0 moves first).
    Matched { seat: Seat, opponent: String },
    /// An opaque in-game payload from the opponent.
    Game(Vec<u8>),
    /// The opponent disconnected or resigned (server-side).
    OpponentLeft,
    /// The connection closed (or never opened).
    Disconnected,
    /// A protocol/connection error.
    Error(String),
}

/// The event a server message surfaces as.
pub fn server_msg_to_event(msg: ServerMsg) -> (r: NetEvent)
    ensures
        match msg {
            ServerMsg::Presence { players } => r == NetEvent::Presence(players),
            ServerMsg::Invited { from, name } => r == (NetEvent::Invited { from, name }),
            ServerMsg::InviteDeclined { by } => r == (NetEvent::InviteDeclined { by }),
            ServerMsg::Matched { seat, opponent } => r == (NetEvent::Matched { seat, opponent }),
            ServerMsg::Game { payload } => r == NetEvent::Game(payload),
            ServerMsg::OpponentLeft => r == NetEvent::OpponentLeft,
            ServerMsg::Error { message } => r == NetEvent::Error(message),
        },
{
    match msg {
        ServerMsg::Presence { players } => NetEvent::Presence(players),
        ServerMsg::Invited { from, name } => NetEvent::Invited { from, name },
        ServerMsg::InviteDeclined { by } => NetEvent::InviteDeclined { by },
        ServerMsg::Matched { seat, opponent } => NetEvent::Matched { seat, opponent },
        ServerMsg::Game { payload } => NetEvent::Game(payload),
        ServerMsg::OpponentLeft => NetEvent::OpponentLeft,
        ServerMsg::Error { message } => NetEvent::Error(message),
    }
}

} // verus!
