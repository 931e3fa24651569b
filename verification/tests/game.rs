use reversi::board::Board;
use reversi::game::{Game, HUMAN};
use reversi::game_msg::{player_of, GameMsg};
use reversi::netplay_protocol::Seat;
use reversi::player::Player;
use reversi::square::Square;

fn sq(row: u8, col: u8) -> Square {
    Square::new(row, col).unwrap()
}

#[test]
fn a_new_game_waits_for_the_human() {
    let game = Game::new();
    assert_eq!(game.board, Board::new());
    assert!(game.awaiting_human());
    assert_eq!(HUMAN, Player::Black);
}

#[test]
fn an_illegal_click_changes_nothing() {
    let mut game = Game::default();
    assert!(!game.play_human(sq(0, 0)));
    assert_eq!(game.board, Board::new());
}

#[test]
fn a_legal_move_gets_the_ai_reply() {
    let mut game = Game::new();
    assert!(game.play_human(sq(2, 3)));
    // Black placed one disc, White replied with one: five discs on the board
    // at least, and it is Black's turn again.
    assert_eq!(game.board.to_move(), Player::Black);
    assert_eq!(game.board.empty_count(), 58);
    assert!(game.awaiting_human());
}

#[test]
fn the_ai_plays_the_game_out_when_the_human_cannot_move() {
    // Black's only move is (0, 2); afterwards only White can move, so the AI
    // plays on until the game ends or Black can move again.
    let mut game = Game::new();
    game.board = Board::from_discs(&[sq(0, 0)], &[sq(0, 1)], Player::Black);
    assert!(game.play_human(sq(0, 2)));
    assert!(game.board.is_terminal() || (game.board.to_move() == Player::Black && !game.board.legal_moves().is_empty()));
    assert!(!game.play_human(sq(0, 2)), "the square is taken");
}

#[test]
fn no_clicks_when_it_is_not_the_humans_turn() {
    let mut game = Game::new();
    game.board = Board::new().apply(sq(2, 3)).unwrap();
    let before = game.board;
    assert!(!game.awaiting_human());
    assert!(!game.play_human(sq(2, 2)));
    assert_eq!(game.board, before);
}

#[test]
fn seats_map_to_colours() {
    assert_eq!(player_of(Seat(0)), Player::Black);
    assert_eq!(player_of(Seat(1)), Player::White);
    assert_eq!(player_of(Seat(7)), Player::White);
    assert_ne!(GameMsg::Move { square: 19 }, GameMsg::Restart);
}
