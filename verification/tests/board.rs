use reversi::board::Board;
use reversi::player::{Cell, Player, NUM_SQUARES};
use reversi::rules::Outcome;
use reversi::square::Square;

fn sq(row: u8, col: u8) -> Square {
    Square::new(row, col).expect("in-range square")
}

#[test]
fn opening_has_exactly_four_moves_for_black() {
    let board = Board::new();
    assert_eq!(board.to_move(), Player::Black);

    let mut moves = board.legal_moves();
    moves.sort_by_key(|s| s.index());

    let mut expected = vec![sq(2, 3), sq(3, 2), sq(4, 5), sq(5, 4)];
    expected.sort_by_key(|s| s.index());

    assert_eq!(moves, expected);
}

#[test]
fn known_flip_scenario() {
    let board = Board::new();
    let after = board.apply(sq(2, 3)).expect("legal opening move");

    assert_eq!(after.cell(sq(2, 3)), Cell::Disc(Player::Black));
    assert_eq!(after.cell(sq(3, 3)), Cell::Disc(Player::Black));

    assert_eq!(after.count(Player::Black), 4);
    assert_eq!(after.count(Player::White), 1);
    assert_eq!(after.to_move(), Player::White);
}

#[test]
fn illegal_moves_are_rejected() {
    let board = Board::new();
    assert!(board.apply(sq(3, 3)).is_none());
    assert!(board.apply(sq(0, 0)).is_none());
    assert!(!board.is_legal(sq(0, 0)));
}

#[test]
fn forced_pass() {
    let board = Board::from_discs(&[sq(0, 1)], &[sq(0, 0)], Player::Black);

    assert!(board.legal_moves().is_empty());
    assert!(board.must_pass());
    assert!(!board.is_terminal());

    let passed = board.pass();
    assert_eq!(passed.to_move(), Player::White);
    assert!(passed.legal_moves().contains(&sq(0, 2)));
}

#[test]
fn no_moves_for_either_side_ends_game() {
    let board = Board::from_discs(&[sq(3, 3), sq(4, 4)], &[], Player::Black);

    assert!(board.legal_moves().is_empty());
    assert!(board.is_terminal());
    assert!(!board.must_pass());
    assert_eq!(board.empty_count(), (NUM_SQUARES - 2) as u32);
    assert_eq!(board.outcome(), Some(Outcome::Win(Player::Black)));
}

#[test]
fn full_board_is_terminal_and_scored() {
    let black: Vec<Square> = (0..33).map(|i| Square::from_index(i).unwrap()).collect();
    let white: Vec<Square> = (33..NUM_SQUARES)
        .map(|i| Square::from_index(i).unwrap())
        .collect();
    let board = Board::from_discs(&black, &white, Player::Black);

    assert_eq!(board.empty_count(), 0);
    assert!(board.is_terminal());
    assert!(board.outcome().is_some());
    assert_eq!(board.outcome(), Some(Outcome::Win(Player::Black)));
}

#[test]
fn full_board_can_draw() {
    let black: Vec<Square> = (0..32).map(|i| Square::from_index(i).unwrap()).collect();
    let white: Vec<Square> = (32..NUM_SQUARES)
        .map(|i| Square::from_index(i).unwrap())
        .collect();
    let board = Board::from_discs(&black, &white, Player::Black);
    assert_eq!(board.outcome(), Some(Outcome::Draw));
}

#[test]
fn a_square_listed_for_both_colours_goes_to_white() {
    let board = Board::from_discs(&[sq(0, 0)], &[sq(0, 0)], Player::Black);
    assert_eq!(board.cell(sq(0, 0)), Cell::Disc(Player::White));
    assert_eq!(board.count(Player::Black), 0);
    assert_eq!(board.count(Player::White), 1);
}

#[test]
fn passing_twice_restores_the_position() {
    let board = Board::from_discs(&[sq(0, 1)], &[sq(0, 0)], Player::Black);
    assert_eq!(board.pass().pass(), board);
}

#[test]
fn mobility_counts_moves_of_either_side() {
    let board = Board::new();
    assert_eq!(board.mobility(Player::Black), 4);
    assert_eq!(board.mobility(Player::White), 4);
    let forced = Board::from_discs(&[sq(0, 1)], &[sq(0, 0)], Player::Black);
    assert_eq!(forced.mobility(Player::Black), 0);
    assert_eq!(forced.mobility(Player::White), 1);
}

#[test]
fn opening_counts_partition_the_board() {
    let board = Board::new();
    assert_eq!(board.count(Player::Black), 2);
    assert_eq!(board.count(Player::White), 2);
    assert_eq!(board.empty_count(), 60);
    assert_eq!(board.outcome(), None);
    assert_eq!(Board::default(), board);
}
