use reversi::board::Board;
use reversi::heuristic::Heuristic;
use reversi::player::Player;
use reversi::search::{search, Evaluator};
use reversi::square::Square;

#[test]
fn depth_one_takes_an_available_corner() {
    let sq = |r, c| Square::new(r, c).expect("in range");

    let board = Board::from_discs(&[sq(0, 2), sq(5, 3)], &[sq(0, 1), sq(5, 4)], Player::Black);

    let moves = board.legal_moves();
    assert_eq!(moves.len(), 2, "expected exactly the two crafted moves");
    assert!(moves.contains(&sq(0, 0)));
    assert!(moves.contains(&sq(5, 5)));

    let result = search(&board, 1, &Heuristic::new());
    assert_eq!(result.best_move, Some(sq(0, 0)), "should grab the corner");
}

#[test]
fn heuristic_default_weights() {
    let h = Heuristic::default();
    assert_eq!((h.corner, h.mobility, h.parity), (25, 5, 1));
    let n = Heuristic::new();
    assert_eq!((n.corner, n.mobility, n.parity), (25, 5, 1));
}

#[test]
fn heuristic_scores_the_opening_as_even() {
    let board = Board::new();
    let h = Heuristic::new();
    assert_eq!(h.evaluate(&board, Player::Black), 0);
    assert_eq!(h.evaluate(&board, Player::White), 0);
}

#[test]
fn heuristic_weighs_corners_mobility_and_discs() {
    let sq = |r, c| Square::new(r, c).unwrap();
    // Black holds a corner and three discs; White one disc and no moves.
    let board = Board::from_discs(&[sq(0, 0), sq(0, 1), sq(0, 2)], &[sq(7, 7)], Player::Black);
    let h = Heuristic::new();
    let black_moves = board.mobility(Player::Black) as i32;
    let white_moves = board.mobility(Player::White) as i32;
    let expected = 25 * (1 - 1) + 5 * (black_moves - white_moves) + (3 - 1);
    assert_eq!(h.evaluate(&board, Player::Black), expected);
    assert_eq!(h.evaluate(&board, Player::White), -expected);
}
