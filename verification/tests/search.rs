use reversi::board::Board;
use reversi::player::Player;
use reversi::search::{search, DiscCount};
use reversi::square::Square;

#[test]
fn depth_one_maximizes_immediate_gain() {
    let board = Board::new();
    let result = search(&board, 1, &DiscCount);
    let mv = result.best_move.expect("opening has moves");

    let best_gain = board
        .legal_moves()
        .into_iter()
        .map(|m| {
            let after = board.apply(m).unwrap();
            after.count(Player::Black) as i32 - after.count(Player::White) as i32
        })
        .max()
        .unwrap();
    let chosen_gain = {
        let after = board.apply(mv).unwrap();
        after.count(Player::Black) as i32 - after.count(Player::White) as i32
    };
    assert_eq!(chosen_gain, best_gain);
}

#[test]
fn terminal_position_reports_no_move() {
    let sq = |r, c| Square::new(r, c).unwrap();
    let board = Board::from_discs(&[sq(3, 3), sq(4, 4)], &[], Player::Black);
    let result = search(&board, 4, &DiscCount);
    assert_eq!(result.best_move, None);
}

#[test]
fn terminal_score_is_the_scaled_disc_difference() {
    let sq = |r, c| Square::new(r, c).unwrap();
    let board = Board::from_discs(&[sq(3, 3), sq(4, 4)], &[], Player::Black);
    let result = search(&board, 3, &DiscCount);
    assert_eq!(result.score, 2 * 1_000_000);
    let white_view = Board::from_discs(&[sq(3, 3), sq(4, 4)], &[], Player::White);
    assert_eq!(search(&white_view, 3, &DiscCount).score, -2 * 1_000_000);
}

#[test]
fn depth_one_score_is_the_best_child_value() {
    // From the opening, every Black move leaves Black 4 discs to White's 1.
    let board = Board::new();
    let result = search(&board, 1, &DiscCount);
    assert_eq!(result.score, 3);
}

#[test]
fn a_forced_pass_has_no_move_but_a_score() {
    let sq = |r, c| Square::new(r, c).unwrap();
    let board = Board::from_discs(&[sq(0, 1)], &[sq(0, 0)], Player::Black);
    let result = search(&board, 1, &DiscCount);
    assert_eq!(result.best_move, None);
    // White replies at (0, 2), taking Black's only disc and ending the game
    // three discs to none.
    assert_eq!(result.score, -3 * 1_000_000);
}
