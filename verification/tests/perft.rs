use reversi::board::Board;
use reversi::player::{Player, NUM_SQUARES};
use reversi::rng::SmallRng;

#[test]
fn thousand_random_games_stay_consistent() {
    const GAMES: u64 = 1_000;
    const MAX_PLIES: u32 = 200;

    for game in 0..GAMES {
        let seed = 0xD1B5_4A32_D192_ED03 ^ game.wrapping_mul(0x9E37_79B9_7F4A_7C15);
        let mut rng = SmallRng::new(seed);
        let mut board = Board::new();
        let mut plies = 0u32;

        loop {
            let black = board.count(Player::Black);
            let white = board.count(Player::White);
            let empty = board.empty_count();
            assert_eq!(
                black + white + empty,
                NUM_SQUARES as u32,
                "counts must sum to 64 (game {game}, ply {plies})"
            );

            if board.is_terminal() {
                break;
            }

            let moves = board.legal_moves();
            board = if moves.is_empty() {
                assert!(board.must_pass(), "expected a forced pass (game {game})");
                board.pass()
            } else {
                let pick = rng.below(moves.len());
                board
                    .apply(moves[pick])
                    .expect("a move from legal_moves must apply")
            };

            plies += 1;
            assert!(plies < MAX_PLIES, "game {game} ran too long");
        }

        assert!(
            board.outcome().is_some(),
            "terminal board must have an outcome (game {game})"
        );
    }
}
