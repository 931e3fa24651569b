//! The decisions of one relay connection: whether its first message opens a
//! session, whether its credential lets it in (and under which name), which
//! lobby command each later message becomes, and that it leaves the lobby
//! exactly once, last.

use vstd::prelude::*;

use crate::netplay_lobby::LobbyCommand;
use crate::netplay_protocol::{ClientMsg, PlayerId, ServerMsg, PROTOCOL_VERSION};
use crate::server_auth::{Identity, UNAUTHORIZED_MESSAGE};

verus! {

/// What to do with a connection's first message.
#[derive(Debug, PartialEq, Eq)]
pub enum HelloCheck {
    /// A version-matching `Hello`: authorize its credential, then join.
    Proceed { name: String, credential: Vec<u8> },
    /// A `Hello` for another protocol version: send this error and close.
    Refuse(ServerMsg),
    /// Anything else (or nothing): close without a word.
    Close,
}

/// The first message must be a version-matching `Hello`.
pub fn check_hello(first: Option<ClientMsg>) -> (r: HelloCheck)
    ensures
        match first {
            Some(ClientMsg::Hello { name, protocol, credential }) => if protocol == PROTOCOL_VERSION {
                r == (HelloCheck::Proceed { name, credential })
            } else {
                r matches HelloCheck::Refuse(ServerMsg::Error { message }) && message@
                    == "protocol version mismatch"@
            },
            _ => r == HelloCheck::Close,
        },
{
    match first {
        Some(ClientMsg::Hello { name, protocol, credential }) => {
            if protocol == PROTOCOL_VERSION {
                HelloCheck::Proceed { name, credential }
            } else {
                HelloCheck::Refuse(ServerMsg::Error { message: "protocol version mismatch".to_owned() })
            }
        },
        _ => HelloCheck::Close,
    }
}

/// Authorize a connection by the account its credential names: the name it joins
/// under is the account's, never the client's; without an account it gets
/// the unauthorized error and does not join.
pub fn authorize(identity: Option<Identity>) -> (r: Result<String, ServerMsg>)
    ensures
        match identity {
            Some(i) => r == Ok::<String, ServerMsg>(i.name),
            None => r matches Err(ServerMsg::Error { message }) && message@ == UNAUTHORIZED_MESSAGE@,
        },
{
    match identity {
        Some(i) => Ok(i.name),
        None => Err(ServerMsg::Error { message: UNAUTHORIZED_MESSAGE.to_owned() }),
    }
}

/// The lobby command that a message from player `id` becomes; a stray second
/// `Hello` becomes none.
pub open spec fn command_of(id: PlayerId, msg: ClientMsg) -> Option<LobbyCommand> {
    match msg {
        ClientMsg::Invite { to } => Some(LobbyCommand::Invite { from: id, to }),
        ClientMsg::Accept { inviter } => Some(LobbyCommand::Accept { accepter: id, inviter }),
        ClientMsg::Decline { inviter } => Some(LobbyCommand::Decline { decliner: id, inviter }),
        ClientMsg::Game { payload } => Some(LobbyCommand::Relay { from: id, payload }),
        ClientMsg::Hello { .. } => None,
    }
}

/// The lobby command that a message from player `id` becomes.
pub fn command_for(id: PlayerId, msg: ClientMsg) -> (r: Option<LobbyCommand>)
    ensures
        r == command_of(id, msg),
{
    match msg {
        ClientMsg::Invite { to } => Some(LobbyCommand::Invite { from: id, to }),
        ClientMsg::Accept { inviter } => Some(LobbyCommand::Accept { accepter: id, inviter }),
        ClientMsg::Decline { inviter } => Some(LobbyCommand::Decline { decliner: id, inviter }),
        ClientMsg::Game { payload } => Some(LobbyCommand::Relay { from: id, payload }),
        ClientMsg::Hello { .. } => None,
    }
}

/// Where a connection stands.
#[derive(Clone, Copy, Debug, PartialEq, Eq, Structural)]
pub enum RelayState {
    /// Waiting for the first message.
    AwaitingHello,
    /// The credential is being checked against the account store.
    AwaitingAuth,
    /// The lobby is being asked to let the player in.
    AwaitingJoin,
    /// In the lobby as player `id`.
    Joined(PlayerId),
    /// Done: nothing more is sent.
    Closed,
}

/// What happened on a connection.
#[derive(Debug, PartialEq, Eq)]
pub enum RelayEvent {
    /// The first message arrived (`None`: the peer closed, or was too slow).
    First(Option<ClientMsg>),
    /// The account store's answer for the credential.
    Verified(Option<Identity>),
    /// The lobby's answer to the join (`None`: it is full or gone).
    JoinReply(Option<PlayerId>),
    /// A later message arrived, within the rate limit.
    Message(ClientMsg),
    /// A later message arrived over the rate limit.
    RateLimited,
    /// The connection or the lobby went away.
    Ended,
}

/// What the connection does in response.
#[derive(Debug, PartialEq, Eq)]
pub enum RelayOutput {
    /// Send this message to the client.
    Send(ServerMsg),
    /// Look the credential up in the account store.
    Verify(Vec<u8>),
    /// Ask the lobby to let the player in under this name.
    Join(String),
    /// Send this command to the lobby.
    Command(LobbyCommand),
}

/// A version-matching `Hello`.
pub open spec fn hello_ok(first: Option<ClientMsg>) -> bool {
    first matches Some(ClientMsg::Hello { protocol, .. }) && protocol == PROTOCOL_VERSION
}

/// The state after `e`.
pub open spec fn next_state(s: RelayState, e: RelayEvent) -> RelayState {
    match s {
        RelayState::Closed => RelayState::Closed,
        _ => match e {
            RelayEvent::Ended => RelayState::Closed,
            RelayEvent::First(m) => if s == RelayState::AwaitingHello {
                if hello_ok(m) {
                    RelayState::AwaitingAuth
                } else {
                    RelayState::Closed
                }
            } else {
                s
            },
            RelayEvent::Verified(i) => if s == RelayState::AwaitingAuth {
                if i is Some {
                    RelayState::AwaitingJoin
                } else {
                    RelayState::Closed
                }
            } else {
                s
            },
            RelayEvent::JoinReply(reply) => if s == RelayState::AwaitingJoin {
                match reply {
                    Some(id) => RelayState::Joined(id),
                    None => RelayState::Closed,
                }
            } else {
                s
            },
            RelayEvent::Message(_) => s,
            RelayEvent::RateLimited => if s is Joined {
                RelayState::Closed
            } else {
                s
            },
        },
    }
}

/// `e` takes a joined connection out: the moment it leaves the lobby.
pub open spec fn emits_leave(s: RelayState, e: RelayEvent) -> bool {
    s is Joined && next_state(s, e) is Closed
}

/// A `Leave` command.
pub open spec fn is_leave(o: RelayOutput) -> bool {
    o matches RelayOutput::Command(LobbyCommand::Leave { .. })
}

/// Advance a connection by one event.
pub fn step(state: RelayState, event: RelayEvent) -> (r: (RelayState, Vec<RelayOutput>))
    ensures
        r.0 == next_state(state, event),
        forall|i: int| 0 <= i < r.1@.len() && is_leave(#[trigger] r.1@[i]) ==> emits_leave(state, event) && i
            == r.1@.len() - 1,
        emits_leave(state, event) ==> r.1@.len() > 0 && r.1@.last() == RelayOutput::Command(
            LobbyCommand::Leave { id: state->0 },
        ),
        state == RelayState::Closed ==> r.1@.len() == 0,
        state != RelayState::Closed ==> match event {
            RelayEvent::First(m) => state == RelayState::AwaitingHello ==> match m {
                Some(ClientMsg::Hello { name, protocol, credential }) => if protocol == PROTOCOL_VERSION {
                    r.1@ == seq![RelayOutput::Verify(credential)]
                } else {
                    r.1@.len() == 1 && (r.1@[0] matches RelayOutput::Send(ServerMsg::Error { message })
                        && message@ == "protocol version mismatch"@)
                },
                _ => r.1@.len() == 0,
            },
            RelayEvent::Verified(identity) => state == RelayState::AwaitingAuth ==> match identity {
                Some(i) => r.1@ == seq![RelayOutput::Join(i.name)],
                None => r.1@.len() == 1 && (r.1@[0] matches RelayOutput::Send(ServerMsg::Error { message })
                    && message@ == UNAUTHORIZED_MESSAGE@),
            },
            RelayEvent::Message(m) => state is Joined ==> match command_of(state->0, m) {
                Some(c) => r.1@ == seq![RelayOutput::Command(c)],
                None => r.1@.len() == 0,
            },
            RelayEvent::RateLimited => state is Joined ==> r.1@.len() == 2 && (r.1@[0] matches RelayOutput::Send(
                ServerMsg::Error { message },
            ) && message@ == "rate exceeded"@),
            RelayEvent::Ended => state is Joined ==> r.1@.len() == 1,
            RelayEvent::JoinReply(_) => r.1@.len() == 0,
        },
        state != RelayState::Closed && !(state is Joined) ==> match event {
            RelayEvent::Ended | RelayEvent::Message(_) | RelayEvent::RateLimited | RelayEvent::JoinReply(
                _,
            ) => r.1@.len() == 0,
            RelayEvent::First(_) => state != RelayState::AwaitingHello ==> r.1@.len() == 0,
            RelayEvent::Verified(_) => state != RelayState::AwaitingAuth ==> r.1@.len() == 0,
        },
        state is Joined ==> match event {
            RelayEvent::First(_) | RelayEvent::Verified(_) => r.1@.len() == 0,
            _ => true,
        },
{
    let mut out: Vec<RelayOutput> = Vec::new();
    match state {
        RelayState::Closed => (RelayState::Closed, out),
        RelayState::AwaitingHello => match event {
            RelayEvent::First(m) => match check_hello(m) {
                HelloCheck::Proceed { name: _, credential } => {
                    out.push(RelayOutput::Verify(credential));
                    (RelayState::AwaitingAuth, out)
                },
                HelloCheck::Refuse(msg) => {
                    out.push(RelayOutput::Send(msg));
                    (RelayState::Closed, out)
                },
                HelloCheck::Close => (RelayState::Closed, out),
            },
            RelayEvent::Ended => (RelayState::Closed, out),
            _ => (state, out),
        },
        RelayState::AwaitingAuth => match event {
            RelayEvent::Verified(identity) => match authorize(identity) {
                Ok(name) => {
                    out.push(RelayOutput::Join(name));
                    (RelayState::AwaitingJoin, out)
                },
                Err(msg) => {
                    out.push(RelayOutput::Send(msg));
                    (RelayState::Closed, out)
                },
            },
            RelayEvent::Ended => (RelayState::Closed, out),
            _ => (state, out),
        },
        RelayState::AwaitingJoin => match event {
            RelayEvent::JoinReply(Some(id)) => (RelayState::Joined(id), out),
            RelayEvent::JoinReply(None) | RelayEvent::Ended => (RelayState::Closed, out),
            _ => (state, out),
        },
        RelayState::Joined(id) => match event {
            RelayEvent::Message(m) => {
                match command_for(id, m) {
                    Some(c) => {
                        out.push(RelayOutput::Command(c));
                    },
                    None => {},
                }
                (state, out)
            },
            RelayEvent::RateLimited => {
                out.push(RelayOutput::Send(ServerMsg::Error { message: "rate exceeded".to_owned() }));
                out.push(RelayOutput::Command(LobbyCommand::Leave { id }));
                (RelayState::Closed, out)
            },
            RelayEvent::Ended => {
                out.push(RelayOutput::Command(LobbyCommand::Leave { id }));
                (RelayState::Closed, out)
            },
            _ => (state, out),
        },
    }
}

/// The state after a run of events.
pub open spec fn state_after(s: RelayState, es: Seq<RelayEvent>) -> RelayState
    decreases es.len(),
{
    if es.len() == 0 {
        s
    } else {
        state_after(next_state(s, es[0]), es.drop_first())
    }
}

/// How many `Leave` commands a run of events sends.
pub open spec fn leave_count(s: RelayState, es: Seq<RelayEvent>) -> nat
    decreases es.len(),
{
    if es.len() == 0 {
        0
    } else {
        (if emits_leave(s, es[0]) {
            1nat
        } else {
            0nat
        }) + leave_count(next_state(s, es[0]), es.drop_first())
    }
}

/// The run joined the lobby at some point.
pub open spec fn ever_joined(s: RelayState, es: Seq<RelayEvent>) -> bool
    decreases es.len(),
{
    s is Joined || (es.len() > 0 && ever_joined(next_state(s, es[0]), es.drop_first()))
}

/// A connection leaves the lobby exactly once if it ever joined and has ended,
/// and never otherwise; once it leaves it is closed, and a closed connection
/// sends nothing more.
pub proof fn lemma_leave_exactly_once(s: RelayState, es: Seq<RelayEvent>)
    ensures
        leave_count(s, es) == (if ever_joined(s, es) && state_after(s, es) == RelayState::Closed {
            1nat
        } else {
            0nat
        }),
        leave_count(s, es) <= 1,
        s is Joined ==> state_after(s, es) is Joined || state_after(s, es) == RelayState::Closed,
        s == RelayState::Closed ==> state_after(s, es) == RelayState::Closed && !ever_joined(s, es),
    decreases es.len(),
{
    if es.len() > 0 {
        lemma_leave_exactly_once(next_state(s, es[0]), es.drop_first());
    }
}

} // verus!
