//! The state behind the game's screens: which screen is up, the login form,
//! the lobby, and what the player asked for on them.

use vstd::prelude::*;

use crate::netplay_protocol::{ClientMsg, PlayerId, PlayerInfo};

verus! {

/// Which screen is up.
#[derive(Clone, Copy, Debug, PartialEq, Eq, Structural)]
pub enum Screen {
    /// Log in / create an account (network mode, before connecting).
    Login,
    Lobby,
    InGame,
}

/// The kind of pointer interaction.
#[derive(Clone, Copy, Debug, PartialEq, Eq, Structural)]
pub enum Phase {
    Pressed,
    Released,
}

/// What the player did in the lobby.
#[derive(Clone, Copy, Debug, PartialEq, Eq, Structural)]
pub enum LobbyAction {
    Invite(PlayerId),
    Accept(PlayerId),
    Decline(PlayerId),
}

/// The status line shown while nobody else is in the lobby.
pub open spec fn waiting_status() -> Seq<char> {
    "Waiting for others to join\u{2026}"@
}

/// Lobby data the UI renders.
pub struct LobbyState {
    /// The local player's display name.
    pub me: String,
    /// Other players currently available.
    pub players: Vec<PlayerInfo>,
    /// An incoming invite: `(inviter id, inviter name)`.
    pub incoming: Option<(PlayerId, String)>,
    /// A short status line (waiting / declined / error).
    pub status: String,
}

impl Default for LobbyState {
    fn default() -> (r: LobbyState)
        ensures
            r.me@.len() == 0,
            r.players@.len() == 0,
            r.incoming is None,
            r.status@.len() == 0,
    {
        LobbyState { me: String::new(), players: Vec::new(), incoming: None, status: String::new() }
    }
}

impl LobbyState {
    /// Show a fresh presence list; the status says so when it is empty.
    pub fn show_players(&mut self, players: Vec<PlayerInfo>)
        ensures
            final(self).players == players,
            final(self).status@ == (if players@.len() == 0 {
                waiting_status()
            } else {
                Seq::empty()
            }),
            final(self).me == old(self).me,
            final(self).incoming == old(self).incoming,
    {
        let empty = players.len() == 0;
        self.players = players;
        self.status = if empty {
            "Waiting for others to join\u{2026}".to_owned()
        } else {
            String::new()
        };
    }

    /// Act on a lobby button press: the message to send the server. An invite
    /// updates the status line; answering an invite closes it.
    pub fn act(&mut self, action: LobbyAction) -> (r: ClientMsg)
        ensures
            match action {
                LobbyAction::Invite(id) => r == (ClientMsg::Invite { to: id }) && final(self).status@
                    == "Invite sent\u{2026}"@ && final(self).incoming == old(self).incoming,
                LobbyAction::Accept(id) => r == (ClientMsg::Accept { inviter: id })
                    && final(self).incoming is None && final(self).status == old(self).status,
                LobbyAction::Decline(id) => r == (ClientMsg::Decline { inviter: id })
                    && final(self).incoming is None && final(self).status == old(self).status,
            },
            final(self).me == old(self).me,
            final(self).players == old(self).players,
    {
        match action {
            LobbyAction::Invite(id) => {
                self.status = "Invite sent\u{2026}".to_owned();
                ClientMsg::Invite { to: id }
            },
            LobbyAction::Accept(id) => {
                self.incoming = None;
                ClientMsg::Accept { inviter: id }
            },
            LobbyAction::Decline(id) => {
                self.incoming = None;
                ClientMsg::Decline { inviter: id }
            },
        }
    }
}

/// Editable login form state.
pub struct LoginForm {
    pub name: String,
    pub password: String,
    /// Last error to show (wrong login, name taken, ...).
    pub error: Option<String>,
    /// A connection attempt is in flight (buttons disabled).
    pub connecting: bool,
}

impl Default for LoginForm {
    fn default() -> (r: LoginForm)
        ensures
            r.name@.len() == 0,
            r.password@.len() == 0,
            r.error is None,
            !r.connecting,
    {
        LoginForm { name: String::new(), password: String::new(), error: None, connecting: false }
    }
}

impl LoginForm {
    /// A connection attempt is underway.
    pub fn start_connecting(&mut self)
        ensures
            final(self).connecting,
            final(self).error is None,
            final(self).name == old(self).name,
            final(self).password == old(self).password,
    {
        self.connecting = true;
        self.error = None;
    }

    /// The attempt failed; show `message` on the form.
    pub fn fail(&mut self, message: String)
        ensures
            !final(self).connecting,
            final(self).error == Some(message),
            final(self).name == old(self).name,
            final(self).password == old(self).password,
    {
        self.error = Some(message);
        self.connecting = false;
    }
}

/// What the login panel asked for.
#[derive(Clone, Copy, Debug, PartialEq, Eq, Structural)]
pub enum LoginAction {
    /// Connect: log in (`register` false) or create the account (`register` true).
    Submit { register: bool },
}

} // verus!
