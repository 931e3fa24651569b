use reversi::board::Board;
use reversi::game::NetGame;
use reversi::game_msg::GameMsg;
use reversi::netplay_protocol::{ClientMsg, Seat};
use reversi::player::Player;
use reversi::session::{apply_effect, EndReason, Session, SessionEffect, SessionEvent};
use reversi::square::Square;
use reversi::text::decimal_string;
use reversi::ui_state::LobbyAction;

fn sq(row: u8, col: u8) -> Square {
    Square::new(row, col).unwrap()
}

#[test]
fn a_match_starts_from_a_fresh_board_on_the_given_side() {
    let mut game = NetGame::new(Player::Black);
    game.board = Board::new().apply(sq(2, 3)).unwrap();
    let mut s = Session::new();
    s.begin_login("A".to_string());
    s.on_net_event(SessionEvent::Presence(vec![]));
    let effect = s.on_net_event(SessionEvent::Matched { seat: Seat(1), opponent: "B".to_string() });
    assert!(apply_effect(&mut game, effect));
    assert_eq!(game.board, Board::new());
    assert_eq!(game.local, Player::White);
}

#[test]
fn remote_moves_apply_only_on_the_opponents_turn() {
    let mut game = NetGame::new(Player::White);
    assert!(!game.awaiting_local());
    assert!(!apply_effect(&mut game, SessionEffect::RemoteMove(sq(0, 0))), "illegal");
    assert!(apply_effect(&mut game, SessionEffect::RemoteMove(sq(2, 3))));
    assert_eq!(game.board, Board::new().apply(sq(2, 3)).unwrap());
    assert!(!apply_effect(&mut game, SessionEffect::RemoteMove(sq(2, 2))), "now it is our turn");
    assert!(game.awaiting_local());
    assert!(apply_effect(&mut game, SessionEffect::RestartGame));
    assert_eq!(game.board, Board::new());
    assert!(!apply_effect(&mut game, SessionEffect::Nothing));
}

#[test]
fn a_forced_pass_is_taken_after_a_move() {
    // After Black takes (0, 1), White's only disc (7, 6) flanks nothing, while
    // Black can still play (7, 5): White passes and Black moves again.
    let mut game = NetGame::new(Player::White);
    game.board = Board::from_discs(&[sq(0, 0), sq(7, 7)], &[sq(0, 1), sq(7, 6)], Player::Black);
    let before = game.board;
    assert!(apply_effect(&mut game, SessionEffect::RemoteMove(sq(0, 2))));
    let after = before.apply(sq(0, 2)).unwrap();
    assert!(after.must_pass());
    assert_eq!(game.board, after.pass());
    assert_eq!(game.board.to_move(), Player::Black);
}

#[test]
fn clicks_play_and_restart() {
    let mut game = NetGame::new(Player::Black);
    let s = {
        let mut s = Session::new();
        s.begin_login("A".to_string());
        s.on_net_event(SessionEvent::Presence(vec![]));
        s.on_net_event(SessionEvent::Matched { seat: Seat(0), opponent: "B".to_string() });
        s
    };
    assert_eq!(s.click_square(&mut game, sq(0, 0), false), None);
    assert_eq!(s.click_square(&mut game, sq(2, 3), true), None, "animating");
    assert_eq!(s.click_square(&mut game, sq(2, 3), false), Some(GameMsg::Move { square: 19 }));
    assert_eq!(s.click_square(&mut game, sq(2, 2), false), None, "the opponent's turn");
    game.board = Board::from_discs(&[sq(3, 3)], &[], Player::Black);
    assert_eq!(s.click_square(&mut game, sq(0, 0), false), Some(GameMsg::Restart));
    assert_eq!(game.board, Board::new());
}

#[test]
fn lobby_actions_go_out_only_when_connected() {
    let mut s = Session::new();
    assert_eq!(s.lobby_action(LobbyAction::Invite(3)), None);
    assert_eq!(s.lobby.status, "Invite sent\u{2026}");
    s.begin_login("A".to_string());
    s.start_connecting();
    s.lobby.incoming = Some((3, "C".to_string()));
    assert_eq!(s.lobby_action(LobbyAction::Accept(3)), Some(ClientMsg::Accept { inviter: 3 }));
    assert_eq!(s.lobby.incoming, None);
}

#[test]
fn titles() {
    let mut s = Session::new();
    s.begin_login("A".to_string());
    assert_eq!(s.screen_title().as_deref(), Some("Reversi \u{2014} Log in"));
    s.start_connecting();
    s.on_net_event(SessionEvent::Presence(vec![]));
    assert_eq!(s.screen_title().as_deref(), Some("Reversi \u{2014} Lobby"));
    s.on_net_event(SessionEvent::Matched { seat: Seat(0), opponent: "Bob".to_string() });
    assert_eq!(s.screen_title(), None);
    let game = NetGame::new(Player::Black);
    assert_eq!(s.network_title(&game), "Reversi \u{2014} Your move \u{00b7} You are Black vs Bob");
    let mut over = NetGame::new(Player::White);
    over.board = Board::from_discs(&[sq(3, 3), sq(4, 4)], &[sq(0, 0)], Player::Black);
    assert!(over.is_over());
    assert_eq!(
        s.network_title(&over),
        "Reversi \u{2014} You lose 2\u{2013}1 \u{00b7} click board for a new game \u{00b7} You are White vs Bob"
    );
    s.on_net_event(SessionEvent::Error("boom".to_string()));
    assert_eq!(s.ended, Some(EndReason::Error("boom".to_string())));
    assert_eq!(s.screen_title().as_deref(), Some("Reversi \u{2014} Error: boom"));
}

#[test]
fn decimal_numerals() {
    assert_eq!(decimal_string(0), "0");
    assert_eq!(decimal_string(7), "7");
    assert_eq!(decimal_string(64), "64");
    assert_eq!(decimal_string(u32::MAX), u32::MAX.to_string());
}
