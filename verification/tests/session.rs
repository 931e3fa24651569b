use reversi::game_msg::GameMsg;
use reversi::netplay_protocol::{PlayerInfo, Seat};
use reversi::player::Player;
use reversi::session::{EndReason, Session, SessionEffect, SessionEvent};
use reversi::square::Square;
use reversi::ui_state::Screen;

fn logged_in() -> Session {
    let mut s = Session::new();
    s.begin_login("Alice".to_string());
    s.start_connecting();
    let effect = s.on_net_event(SessionEvent::Presence(vec![]));
    assert_eq!(effect, SessionEffect::Nothing);
    s
}

#[test]
fn first_presence_enters_the_lobby() {
    let s = logged_in();
    assert_eq!(s.screen, Screen::Lobby);
    assert_eq!(s.lobby.me, "Alice");
    assert!(!s.login.connecting);
    assert_eq!(s.lobby.status, "Waiting for others to join\u{2026}");
    assert!(s.network);
}

#[test]
fn login_failures_return_to_the_form() {
    let mut s = Session::new();
    s.begin_login("Bob".to_string());
    s.start_connecting();
    s.on_net_event(SessionEvent::Disconnected);
    assert_eq!(s.screen, Screen::Login);
    assert_eq!(s.login.error.as_deref(), Some("could not connect"));
    assert!(!s.network);
    s.start_connecting();
    s.on_net_event(SessionEvent::Error("invalid or expired session token".to_string()));
    assert_eq!(s.login.error.as_deref(), Some("invalid or expired session token"));
    assert_eq!(s.on_net_event(SessionEvent::OpponentLeft), SessionEffect::Nothing);
    assert_eq!(s.screen, Screen::Login);
}

#[test]
fn lobby_events_update_what_is_shown() {
    let mut s = logged_in();
    s.on_net_event(SessionEvent::Presence(vec![PlayerInfo { id: 2, name: "Bob".to_string() }]));
    assert_eq!(s.lobby.players.len(), 1);
    assert_eq!(s.lobby.status, "");
    s.on_net_event(SessionEvent::Invited { from: 2, name: "Bob".to_string() });
    assert_eq!(s.lobby.incoming, Some((2, "Bob".to_string())));
    s.on_net_event(SessionEvent::InviteDeclined { by: 2 });
    assert_eq!(s.lobby.status, "Invite declined");
    s.on_net_event(SessionEvent::Error("rate exceeded".to_string()));
    assert_eq!(s.lobby.status, "Error: rate exceeded");
    s.on_net_event(SessionEvent::Disconnected);
    assert_eq!(s.lobby.status, "Disconnected");
    assert_eq!(s.ended, None);
}

#[test]
fn a_match_starts_the_game_and_relays_moves() {
    let mut s = logged_in();
    let effect = s.on_net_event(SessionEvent::Matched { seat: Seat(1), opponent: "Bob".to_string() });
    assert_eq!(effect, SessionEffect::StartMatch(Player::White));
    assert_eq!(s.screen, Screen::InGame);
    assert_eq!(s.opponent, "Bob");
    assert_eq!(
        s.on_net_event(SessionEvent::Game(Some(GameMsg::Move { square: 19 }))),
        SessionEffect::RemoteMove(Square::new(2, 3).unwrap())
    );
    assert_eq!(s.on_net_event(SessionEvent::Game(Some(GameMsg::Move { square: 64 }))), SessionEffect::Nothing);
    assert_eq!(s.on_net_event(SessionEvent::Game(Some(GameMsg::Restart))), SessionEffect::RestartGame);
    assert_eq!(s.on_net_event(SessionEvent::Game(None)), SessionEffect::Nothing);
    s.on_net_event(SessionEvent::OpponentLeft);
    assert_eq!(s.ended, Some(EndReason::OpponentLeft));
}

#[test]
fn in_game_failures_end_the_game() {
    let mut s = logged_in();
    s.on_net_event(SessionEvent::Matched { seat: Seat(0), opponent: "Bob".to_string() });
    s.on_net_event(SessionEvent::Error("boom".to_string()));
    assert_eq!(s.ended, Some(EndReason::Error("boom".to_string())));
    s.on_net_event(SessionEvent::Disconnected);
    assert_eq!(s.ended, Some(EndReason::Disconnected));
    let effect = s.on_net_event(SessionEvent::Matched { seat: Seat(0), opponent: "Carol".to_string() });
    assert_eq!(effect, SessionEffect::StartMatch(Player::Black));
    assert_eq!(s.ended, None);
}

#[test]
fn screen_queries() {
    let mut s = Session::new();
    assert!(!s.is_login() && !s.is_lobby() && !s.uses_egui());
    s.begin_login(String::new());
    assert!(s.is_login() && s.uses_egui());
    s.login_error("x".to_string());
    assert!(!s.network);
}

#[test]
fn submissions_are_checked_before_connecting() {
    let mut s = Session::new();
    s.begin_login("  ".to_string());
    assert_eq!(s.submit_login(false), None);
    assert_eq!(s.login.error.as_deref(), Some("enter a username"));

    s.begin_login(" Dave ".to_string());
    s.login.password = "short".to_string();
    assert_eq!(s.submit_login(true), None);
    assert_eq!(s.login.error.as_deref(), Some("password too short (min 8 characters)"));
    assert_eq!(s.submit_login(false), Some(("Dave".to_string(), "short".to_string())));

    s.login.password = "password".to_string();
    assert_eq!(s.submit_login(true), Some(("Dave".to_string(), "password".to_string())));
    s.start_connecting();
    assert_eq!(s.submit_login(true), None, "an attempt is already in flight");
}
