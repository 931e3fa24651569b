//! What the game session does with the network's news: which screen is up,
//! what the lobby and login form show, and how a game ends. The board itself
//! is driven through the effects each event asks for.

use vstd::prelude::*;
use vstd::string::StringExecFns;

use crate::game::{settle, NetGame};
use crate::game_msg::{player_of, GameMsg};
use crate::netplay_protocol::{ClientMsg, PlayerId, PlayerInfo, Seat};
use crate::player::{other, Player};
use crate::rules::{legal, opening, BoardView, Outcome};
use crate::square::Square;
use crate::text::{decimal, decimal_string, trim, trimmed};
use crate::ui_state::{waiting_status, LobbyAction, LobbyState, LoginForm, Screen};

verus! {

/// Why an in-progress network game ended (frozen board, message in the title).
#[derive(Clone, Debug, PartialEq, Eq)]
pub enum EndReason {
    OpponentLeft,
    Disconnected,
    Error(String),
}

/// A network event, with any in-game payload already read as a [`GameMsg`]
/// (`None` when it was malformed).
#[derive(Debug, PartialEq, Eq)]
pub enum SessionEvent {
    Presence(Vec<PlayerInfo>),
    Invited { from: PlayerId, name: String },
    InviteDeclined { by: PlayerId },
    Matched { seat: Seat, opponent: String },
    Game(Option<GameMsg>),
    OpponentLeft,
    Disconnected,
    Error(String),
}

/// What an event asks of the game board.
#[derive(Clone, Copy, Debug, PartialEq, Eq, Structural)]
pub enum SessionEffect {
    /// Leave the board as it is.
    Nothing,
    /// A match started: the local player controls this side, from a fresh board.
    StartMatch(Player),
    /// The opponent played this square.
    RemoteMove(Square),
    /// The opponent restarted the game.
    RestartGame,
}

/// The session's screens and the network-facing state they show.
pub struct Session {
    pub screen: Screen,
    pub lobby: LobbyState,
    pub login: LoginForm,
    pub opponent: String,
    pub ended: Option<EndReason>,
    /// A connection is open (or being opened).
    pub network: bool,
}

impl Session {
    /// A local single-player session (vs the AI), straight into the game.
    pub fn new() -> (r: Session)
        ensures
            r.screen == Screen::InGame,
            r.ended is None,
            !r.network,
            r.opponent@.len() == 0,
            r.login.error is None,
            !r.login.connecting,
            r.lobby.incoming is None,
    {
        Session {
            screen: Screen::InGame,
            lobby: LobbyState::default(),
            login: LoginForm::default(),
            opponent: String::new(),
            ended: None,
            network: false,
        }
    }

    /// Enter network mode on the login screen, pre-filling `name`.
    pub fn begin_login(&mut self, name: String)
        ensures
            final(self).screen == Screen::Login,
            final(self).login.name == name,
            final(self).login.password == old(self).login.password,
            final(self).login.error == old(self).login.error,
            final(self).login.connecting == old(self).login.connecting,
            final(self).network == old(self).network,
            final(self).lobby == old(self).lobby,
            final(self).opponent == old(self).opponent,
            final(self).ended == old(self).ended,
    {
        self.screen = Screen::Login;
        self.login.name = name;
    }

    /// A connection attempt is underway (still on the login screen until the
    /// server confirms).
    pub fn start_connecting(&mut self)
        ensures
            final(self).network,
            final(self).login.connecting,
            final(self).login.error is None,
            final(self).screen == old(self).screen,
            final(self).login.name == old(self).login.name,
            final(self).login.password == old(self).login.password,
            final(self).lobby == old(self).lobby,
            final(self).opponent == old(self).opponent,
            final(self).ended == old(self).ended,
    {
        self.network = true;
        self.login.start_connecting();
    }

    /// The connection failed or could not be attempted; show the error on the
    /// form.
    pub fn login_error(&mut self, message: String)
        ensures
            !final(self).network,
            !final(self).login.connecting,
            final(self).login.error == Some(message),
            final(self).screen == old(self).screen,
            final(self).login.name == old(self).login.name,
            final(self).login.password == old(self).login.password,
            final(self).lobby == old(self).lobby,
            final(self).opponent == old(self).opponent,
            final(self).ended == old(self).ended,
    {
        self.login.fail(message);
        self.network = false;
    }

    /// Handle a login or registration submission: while no attempt is in
    /// flight, the trimmed name must not be empty and, to register, the
    /// password must be at least 8 bytes long; otherwise the form shows why.
    /// Returns the name and password to connect with.
    pub fn submit_login(&mut self, register: bool) -> (r: Option<(String, String)>)
        ensures
            old(self).login.connecting ==> r is None && final(self).login == old(self).login
                && final(self).network == old(self).network,
            !old(self).login.connecting && trimmed(old(self).login.name@).len() == 0 ==> {
                &&& r is None
                &&& final(self).login.error matches Some(m) && m@ == "enter a username"@
                &&& !final(self).network
            },
            !old(self).login.connecting && trimmed(old(self).login.name@).len() > 0 && register
                && (vstd::utf8::encode_utf8(old(self).login.password@).len() as usize) < 8 ==> {
                &&& r is None
                &&& final(self).login.error matches Some(m) && m@ == "password too short (min 8 characters)"@
                &&& !final(self).network
            },
            !old(self).login.connecting && trimmed(old(self).login.name@).len() > 0 && !(register
                && (vstd::utf8::encode_utf8(old(self).login.password@).len() as usize) < 8) ==> {
                &&& r matches Some((name, password)) && name@ == trimmed(old(self).login.name@) && password
                    == old(self).login.password
                &&& final(self).login == old(self).login
                &&& final(self).network == old(self).network
            },
            final(self).screen == old(self).screen,
            final(self).lobby == old(self).lobby,
            final(self).opponent == old(self).opponent,
            final(self).ended == old(self).ended,
            final(self).login.name == old(self).login.name,
            final(self).login.password == old(self).login.password,
    {
        if self.login.connecting {
            return None;
        }
        let name = trim(self.login.name.as_str()).to_owned();
        if name.as_str().unicode_len() == 0 {
            self.login_error("enter a username".to_owned());
            return None;
        }
        if register && self.login.password.as_str().len() < 8 {
            self.login_error("password too short (min 8 characters)".to_owned());
            return None;
        }
        Some((name, self.login.password.clone()))
    }

    /// Act on a lobby button press: the lobby shows it (an invite updates the
    /// status line, answering an invite closes it) and, when connected, the
    /// result is the message to send the server.
    pub fn lobby_action(&mut self, action: LobbyAction) -> (r: Option<ClientMsg>)
        ensures
            match action {
                LobbyAction::Invite(id) => final(self).lobby.status@ == "Invite sent\u{2026}"@
                    && final(self).lobby.incoming == old(self).lobby.incoming && (old(self).network ==> r
                    == Some(ClientMsg::Invite { to: id })),
                LobbyAction::Accept(id) => final(self).lobby.incoming is None && final(self).lobby.status
                    == old(self).lobby.status && (old(self).network ==> r == Some(
                    ClientMsg::Accept { inviter: id },
                )),
                LobbyAction::Decline(id) => final(self).lobby.incoming is None && final(self).lobby.status
                    == old(self).lobby.status && (old(self).network ==> r == Some(
                    ClientMsg::Decline { inviter: id },
                )),
            },
            !old(self).network ==> r is None,
            final(self).lobby.me == old(self).lobby.me,
            final(self).lobby.players == old(self).lobby.players,
            final(self).screen == old(self).screen,
            final(self).login == old(self).login,
            final(self).network == old(self).network,
            final(self).opponent == old(self).opponent,
            final(self).ended == old(self).ended,
    {
        let msg = self.lobby.act(action);
        if self.network {
            Some(msg)
        } else {
            None
        }
    }

    /// A click on board square `sq` in a network game: ignored in the lobby,
    /// after the game ended, or while a move is animating; otherwise the
    /// game's own click. Returns the message for the opponent, if any.
    pub fn click_square(&self, game: &mut NetGame, sq: Square, animating: bool) -> (r: Option<GameMsg>)
        ensures
            final(game).local == old(game).local,
            (self.screen == Screen::Lobby || self.ended is Some || animating) ==> r is None && final(game).board
                == old(game).board,
            !(self.screen == Screen::Lobby || self.ended is Some || animating) ==> {
                let b = old(game).board@;
                &&& b.is_terminal() ==> r == Some(GameMsg::Restart) && final(game).board@ == opening()
                &&& !b.is_terminal() && b.to_move == old(game).local && legal(b.cells, b.to_move, sq@) ==> r
                    == Some(GameMsg::Move { square: sq@ as u8 }) && final(game).board@ == settle(
                    b.after_move(sq@),
                )
                &&& !b.is_terminal() && !(b.to_move == old(game).local && legal(b.cells, b.to_move, sq@))
                    ==> r is None && final(game).board == old(game).board
            },
    {
        if self.is_lobby() || self.ended.is_some() || animating {
            return None;
        }
        game.click(sq)
    }

    /// The window title on the login and lobby screens and after a network
    /// game ended; `None` while a game is on.
    pub fn screen_title(&self) -> (r: Option<String>)
        ensures
            self.screen == Screen::Login ==> (r matches Some(t) && t@ == "Reversi \u{2014} Log in"@),
            self.screen == Screen::Lobby ==> (r matches Some(t) && t@ == "Reversi \u{2014} Lobby"@),
            self.screen == Screen::InGame ==> match self.ended {
                Some(EndReason::OpponentLeft) => r matches Some(t) && t@ == "Reversi \u{2014} Opponent left"@,
                Some(EndReason::Disconnected) => r matches Some(t) && t@ == "Reversi \u{2014} Disconnected"@,
                Some(EndReason::Error(e)) => r matches Some(t) && t@ == "Reversi \u{2014} Error: "@ + e@,
                None => r is None,
            },
    {
        match self.screen {
            Screen::Login => Some("Reversi \u{2014} Log in".to_owned()),
            Screen::Lobby => Some("Reversi \u{2014} Lobby".to_owned()),
            Screen::InGame => match &self.ended {
                Some(EndReason::OpponentLeft) => Some("Reversi \u{2014} Opponent left".to_owned()),
                Some(EndReason::Disconnected) => Some("Reversi \u{2014} Disconnected".to_owned()),
                Some(EndReason::Error(e)) => {
                    let mut t = String::from_str("Reversi \u{2014} Error: ");
                    t.append(e.as_str());
                    Some(t)
                },
                None => None,
            },
        }
    }

    /// The window title during a network game.
    pub fn network_title(&self, game: &NetGame) -> (r: String)
        ensures
            r@ == network_title_of(game.board@, game.local, self.opponent@),
    {
        let (me, opp) = game.score();
        let me_s = decimal_string(me);
        let opp_s = decimal_string(opp);
        let status = if game.is_over() {
            let won = match game.board.outcome() {
                Some(Outcome::Win(p)) => Some(p == game.local),
                _ => None,
            };
            let mut t = match won {
                Some(true) => String::from_str("You win "),
                Some(false) => String::from_str("You lose "),
                None => String::from_str("Draw "),
            };
            match won {
                Some(false) => {
                    t.append(opp_s.as_str());
                    t.append("\u{2013}");
                    t.append(me_s.as_str());
                },
                _ => {
                    t.append(me_s.as_str());
                    t.append("\u{2013}");
                    t.append(opp_s.as_str());
                },
            }
            t.append(" \u{00b7} click board for a new game");
            t
        } else if game.awaiting_local() {
            String::from_str("Your move")
        } else {
            String::from_str("Opponent's move")
        };
        let mut title = String::from_str("Reversi \u{2014} ");
        title.append(status.as_str());
        title.append(" \u{00b7} You are ");
        match game.local {
            Player::Black => title.append("Black"),
            Player::White => title.append("White"),
        }
        title.append(" vs ");
        title.append(self.opponent.as_str());
        title
    }

    pub fn is_login(&self) -> (r: bool)
        ensures
            r == (self.screen == Screen::Login),
    {
        match self.screen {
            Screen::Login => true,
            _ => false,
        }
    }

    pub fn is_lobby(&self) -> (r: bool)
        ensures
            r == (self.screen == Screen::Lobby),
    {
        match self.screen {
            Screen::Lobby => true,
            _ => false,
        }
    }

    /// Screens driven by the immediate-mode UI (login and lobby).
    pub fn uses_egui(&self) -> (r: bool)
        ensures
            r == (self.screen == Screen::Login || self.screen == Screen::Lobby),
    {
        match self.screen {
            Screen::Login | Screen::Lobby => true,
            Screen::InGame => false,
        }
    }

    /// Apply a network event. On the login screen the first presence list
    /// enters the lobby and any failure returns to the form with an error; in
    /// the lobby and in game, each event updates what is shown, and the result
    /// says what the board has to do.
    pub fn on_net_event(&mut self, event: SessionEvent) -> (r: SessionEffect)
        ensures
            old(self).screen == Screen::Login ==> match event {
                SessionEvent::Presence(players) => {
                    &&& final(self).screen == Screen::Lobby
                    &&& final(self).lobby.me == old(self).login.name
                    &&& !final(self).login.connecting
                    &&& final(self).lobby.players == players
                    &&& final(self).lobby.status@ == (if players@.len() == 0 {
                        waiting_status()
                    } else {
                        Seq::empty()
                    })
                    &&& final(self).network == old(self).network
                    &&& final(self).lobby.incoming == old(self).lobby.incoming
                    &&& final(self).login.name == old(self).login.name
                    &&& final(self).login.password == old(self).login.password
                    &&& final(self).login.error == old(self).login.error
                    &&& final(self).opponent == old(self).opponent
                    &&& final(self).ended == old(self).ended
                    &&& r == SessionEffect::Nothing
                },
                SessionEvent::Error(message) => {
                    &&& final(self).screen == Screen::Login
                    &&& final(self).login.error == Some(message)
                    &&& !final(self).login.connecting
                    &&& !final(self).network
                    &&& final(self).login.name == old(self).login.name
                    &&& final(self).login.password == old(self).login.password
                    &&& final(self).lobby == old(self).lobby
                    &&& final(self).opponent == old(self).opponent
                    &&& final(self).ended == old(self).ended
                    &&& r == SessionEffect::Nothing
                },
                SessionEvent::Disconnected => {
                    &&& final(self).screen == Screen::Login
                    &&& final(self).login.error matches Some(m) && m@ == "could not connect"@
                    &&& !final(self).login.connecting
                    &&& !final(self).network
                    &&& final(self).login.name == old(self).login.name
                    &&& final(self).login.password == old(self).login.password
                    &&& final(self).lobby == old(self).lobby
                    &&& final(self).opponent == old(self).opponent
                    &&& final(self).ended == old(self).ended
                    &&& r == SessionEffect::Nothing
                },
                _ => {
                    &&& r == SessionEffect::Nothing
                    &&& final(self).screen == Screen::Login
                    &&& final(self).login == old(self).login
                    &&& final(self).lobby == old(self).lobby
                    &&& final(self).opponent == old(self).opponent
                    &&& final(self).ended == old(self).ended
                    &&& final(self).network == old(self).network
                },
            },
            old(self).screen != Screen::Login ==> final(self).login == old(self).login && final(self).network
                == old(self).network,
            old(self).screen != Screen::Login ==> match event {
                SessionEvent::Presence(players) => {
                    &&& final(self).lobby.players == players
                    &&& final(self).lobby.status@ == (if players@.len() == 0 {
                        waiting_status()
                    } else {
                        Seq::empty()
                    })
                    &&& final(self).screen == old(self).screen
                    &&& final(self).lobby.me == old(self).lobby.me
                    &&& final(self).lobby.incoming == old(self).lobby.incoming
                    &&& final(self).opponent == old(self).opponent
                    &&& final(self).ended == old(self).ended
                    &&& r == SessionEffect::Nothing
                },
                SessionEvent::Invited { from, name } => {
                    &&& final(self).lobby.incoming == Some((from, name))
                    &&& final(self).lobby.me == old(self).lobby.me
                    &&& final(self).lobby.players == old(self).lobby.players
                    &&& final(self).lobby.status == old(self).lobby.status
                    &&& final(self).screen == old(self).screen
                    &&& final(self).opponent == old(self).opponent
                    &&& final(self).ended == old(self).ended
                    &&& r == SessionEffect::Nothing
                },
                SessionEvent::InviteDeclined { .. } => {
                    &&& final(self).lobby.status@ == "Invite declined"@
                    &&& final(self).lobby.me == old(self).lobby.me
                    &&& final(self).lobby.players == old(self).lobby.players
                    &&& final(self).lobby.incoming == old(self).lobby.incoming
                    &&& final(self).screen == old(self).screen
                    &&& final(self).opponent == old(self).opponent
                    &&& final(self).ended == old(self).ended
                    &&& r == SessionEffect::Nothing
                },
                SessionEvent::Matched { seat, opponent } => {
                    &&& final(self).screen == Screen::InGame
                    &&& final(self).opponent == opponent
                    &&& final(self).ended is None
                    &&& final(self).lobby.incoming is None
                    &&& final(self).lobby.me == old(self).lobby.me
                    &&& final(self).lobby.players == old(self).lobby.players
                    &&& final(self).lobby.status == old(self).lobby.status
                    &&& r == SessionEffect::StartMatch(if seat.0 == 0 {
                        Player::Black
                    } else {
                        Player::White
                    })
                },
                SessionEvent::Game(msg) => {
                    &&& final(self).screen == old(self).screen
                    &&& final(self).ended == old(self).ended
                    &&& final(self).lobby == old(self).lobby
                    &&& final(self).opponent == old(self).opponent
                    &&& match msg {
                        Some(GameMsg::Move { square }) => if square < 64 {
                            r matches SessionEffect::RemoteMove(sq) && sq@ == square
                        } else {
                            r == SessionEffect::Nothing
                        },
                        Some(GameMsg::Restart) => r == SessionEffect::RestartGame,
                        None => r == SessionEffect::Nothing,
                    }
                },
                SessionEvent::OpponentLeft => {
                    &&& final(self).ended == Some(EndReason::OpponentLeft)
                    &&& final(self).lobby == old(self).lobby
                    &&& final(self).opponent == old(self).opponent
                    &&& final(self).screen == old(self).screen
                    &&& r == SessionEffect::Nothing
                },
                SessionEvent::Disconnected => {
                    &&& old(self).screen == Screen::Lobby ==> final(self).lobby.status@ == "Disconnected"@
                        && final(self).ended == old(self).ended
                    &&& old(self).screen != Screen::Lobby ==> final(self).ended == Some(EndReason::Disconnected)
                        && final(self).lobby == old(self).lobby
                    &&& final(self).lobby.me == old(self).lobby.me
                    &&& final(self).lobby.players == old(self).lobby.players
                    &&& final(self).lobby.incoming == old(self).lobby.incoming
                    &&& final(self).opponent == old(self).opponent
                    &&& final(self).screen == old(self).screen
                    &&& r == SessionEffect::Nothing
                },
                SessionEvent::Error(message) => {
                    &&& old(self).screen == Screen::Lobby ==> final(self).lobby.status@ == "Error: "@ + message@
                        && final(self).ended == old(self).ended
                    &&& old(self).screen != Screen::Lobby ==> final(self).ended == Some(EndReason::Error(message))
                        && final(self).lobby == old(self).lobby
                    &&& final(self).lobby.me == old(self).lobby.me
                    &&& final(self).lobby.players == old(self).lobby.players
                    &&& final(self).lobby.incoming == old(self).lobby.incoming
                    &&& final(self).opponent == old(self).opponent
                    &&& final(self).screen == old(self).screen
                    &&& r == SessionEffect::Nothing
                },
            },
    {
        if self.is_login() {
            match event {
                SessionEvent::Presence(players) => {
                    self.lobby.me = self.login.name.clone();
                    self.login.connecting = false;
                    self.lobby.show_players(players);
                    self.screen = Screen::Lobby;
                },
                SessionEvent::Error(message) => self.login_error(message),
                SessionEvent::Disconnected => self.login_error("could not connect".to_owned()),
                _ => {},
            }
            return SessionEffect::Nothing;
        }
        match event {
            SessionEvent::Presence(players) => {
                self.lobby.show_players(players);
                SessionEffect::Nothing
            },
            SessionEvent::Invited { from, name } => {
                self.lobby.incoming = Some((from, name));
                SessionEffect::Nothing
            },
            SessionEvent::InviteDeclined { .. } => {
                self.lobby.status = "Invite declined".to_owned();
                SessionEffect::Nothing
            },
            SessionEvent::Matched { seat, opponent } => {
                let local = player_of(seat);
                self.opponent = opponent;
                self.ended = None;
                self.lobby.incoming = None;
                self.screen = Screen::InGame;
                SessionEffect::StartMatch(local)
            },
            SessionEvent::Game(msg) => match msg {
                Some(GameMsg::Move { square }) => match Square::from_index(square as usize) {
                    Some(sq) => SessionEffect::RemoteMove(sq),
                    None => SessionEffect::Nothing,
                },
                Some(GameMsg::Restart) => SessionEffect::RestartGame,
                None => SessionEffect::Nothing,
            },
            SessionEvent::OpponentLeft => {
                self.ended = Some(EndReason::OpponentLeft);
                SessionEffect::Nothing
            },
            SessionEvent::Disconnected => {
                if self.is_lobby() {
                    self.lobby.status = "Disconnected".to_owned();
                } else {
                    self.ended = Some(EndReason::Disconnected);
                }
                SessionEffect::Nothing
            },
            SessionEvent::Error(message) => {
                if self.is_lobby() {
                    let mut status = String::from_str("Error: ");
                    status.append(message.as_str());
                    self.lobby.status = status;
                } else {
                    self.ended = Some(EndReason::Error(message));
                }
                SessionEffect::Nothing
            },
        }
    }
}

/// The window title during a network game: the status (result and score,
/// or whose move it is), the local side, and the opponent's name.
pub open spec fn network_title_of(b: BoardView, local: Player, opponent: Seq<char>) -> Seq<char> {
    let me = decimal(b.discs(local));
    let opp = decimal(b.discs(other(local)));
    let tail = " \u{00b7} click board for a new game"@;
    let status = if b.is_terminal() {
        match b.outcome() {
            Some(Outcome::Win(p)) => if p == local {
                "You win "@ + me + "\u{2013}"@ + opp + tail
            } else {
                "You lose "@ + opp + "\u{2013}"@ + me + tail
            },
            _ => "Draw "@ + me + "\u{2013}"@ + opp + tail,
        }
    } else if b.to_move == local {
        "Your move"@
    } else {
        "Opponent's move"@
    };
    let side = match local {
        Player::Black => "Black"@,
        Player::White => "White"@,
    };
    "Reversi \u{2014} "@ + status + " \u{00b7} You are "@ + side + " vs "@ + opponent
}

/// Apply what a network event asks of the game: a match starts from a fresh
/// board on the given side, the opponent's move is played when it is their
/// turn and legal, a restart starts over. Returns whether the board changed.
pub fn apply_effect(game: &mut NetGame, effect: SessionEffect) -> (r: bool)
    ensures
        match effect {
            SessionEffect::Nothing => !r && final(game).board == old(game).board && final(game).local == old(
                game,
            ).local,
            SessionEffect::StartMatch(p) => r && final(game).board@ == opening() && final(game).local == p,
            SessionEffect::RestartGame => r && final(game).board@ == opening() && final(game).local == old(
                game,
            ).local,
            SessionEffect::RemoteMove(sq) => {
                let b = old(game).board@;
                &&& r == (!b.is_terminal() && b.to_move != old(game).local && legal(b.cells, b.to_move, sq@))
                &&& r ==> final(game).board@ == settle(b.after_move(sq@))
                &&& !r ==> final(game).board == old(game).board
                &&& final(game).local == old(game).local
            },
        },
{
    match effect {
        SessionEffect::Nothing => false,
        SessionEffect::StartMatch(p) => {
            game.start_match(p);
            true
        },
        SessionEffect::RestartGame => {
            game.restart();
            true
        },
        SessionEffect::RemoteMove(sq) => game.apply_remote_move(sq),
    }
}

} // verus!
