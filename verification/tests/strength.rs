use reversi::matchup::{play_game, play_match, MatchResult};
use reversi::player::Player;

const MATCH_SEED: u64 = 0xA1B2_C3D4_E5F6_0718;

#[test]
fn deeper_search_beats_shallower() {
    let result = play_match(3, 1, 50, MATCH_SEED);
    println!(
        "depth 3 vs depth 1 over 50 games: deep {} - {} shallow, {} draws",
        result.deep_wins, result.shallow_wins, result.draws
    );

    assert!(
        result.deep_wins > result.shallow_wins,
        "deeper search should win more games: deep={} shallow={} draws={}",
        result.deep_wins,
        result.shallow_wins,
        result.draws
    );
    assert!(
        result.deep_wins >= 33,
        "deeper search should dominate, got only {} wins",
        result.deep_wins
    );
}

#[test]
fn a_match_accounts_for_every_game() {
    let result = play_match(1, 1, 6, 7);
    assert_eq!(result.deep_wins + result.shallow_wins + result.draws, 6);
    let empty = play_match(2, 1, 0, 7);
    assert_eq!(empty, MatchResult::default());
}

#[test]
fn games_are_reproducible_from_their_seed() {
    let a = play_game(2, 1, Player::Black, 99);
    let b = play_game(2, 1, Player::Black, 99);
    assert_eq!(a, b);
}
