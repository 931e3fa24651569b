//! Play search engines of different depths against each other.
//!
//! Games are seeded and deterministic given their inputs.

use vstd::prelude::*;

use crate::board::{lemma_board_wf, square_indices, Board};
use crate::heuristic::Heuristic;
use crate::player::Player;
use crate::rng::{xorshift, SmallRng};
use crate::rules::{lemma_moves, opening, BoardView, Outcome};
use crate::search::{lemma_root_choice_legal, root_choice, search};
use crate::selfplay::{game_measure, lemma_progress, random_pick};

verus! {

/// Random plies played from the opening before the engines take over.
pub const OPENING_PLIES: usize = 4;

/// The engine both sides use, with the default weights.
pub open spec fn default_heuristic() -> Heuristic {
    Heuristic { corner: 25, mobility: 5, parity: 1 }
}

/// The first `k` opening plies from `b`: a random legal move, or a pass when
/// there is none; stops early at a finished game. Returns the board and the
/// generator state.
pub open spec fn opening_plies(b: BoardView, state: u64, k: nat) -> (BoardView, u64)
    decreases k,
{
    if k == 0 || !b.wf() || b.is_terminal() {
        (b, state)
    } else if b.moves().len() == 0 {
        opening_plies(b.after_pass(), state, (k - 1) as nat)
    } else {
        opening_plies(b.after_move(b.moves()[random_pick(b, state)]), xorshift(state), (k - 1) as nat)
    }
}

/// The search depth of the side to move.
pub open spec fn depth_for(b: BoardView, deep: u32, shallow: u32, deep_side: Player) -> nat {
    (if b.to_move == deep_side { deep } else { shallow }) as nat
}

/// The engines play `b` out: each side plays the move its search picks, and
/// passes when it has none. Returns the final board.
pub open spec fn engine_game(b: BoardView, deep: u32, shallow: u32, deep_side: Player) -> BoardView
    decreases game_measure(b),
{
    if !b.wf() || b.is_terminal() {
        b
    } else if b.moves().len() == 0 {
        proof {
            lemma_progress(b, 0);
        }
        engine_game(b.after_pass(), deep, shallow, deep_side)
    } else {
        let depth = depth_for(b, deep, shallow, deep_side);
        let mv = root_choice(default_heuristic(), b, depth);
        proof {
            lemma_root_choice_legal(default_heuristic(), b, depth);
            lemma_progress(b, crate::search::best_index(default_heuristic(), b, (if depth > 0 { depth - 1 } else { 0 }) as nat, b.moves().len()));
        }
        engine_game(b.after_move(mv), deep, shallow, deep_side)
    }
}

/// The winner of a finished board, or `None` for a draw.
pub open spec fn winner(b: BoardView) -> Option<Player> {
    match b.outcome() {
        Some(Outcome::Win(p)) => Some(p),
        _ => None,
    }
}

/// The winner of the game [`play_game`] plays.
pub open spec fn game_winner(deep: u32, shallow: u32, deep_side: Player, seed: u64) -> Option<Player> {
    winner(
        engine_game(
            opening_plies(opening(), (if seed == 0 { 1 } else { seed }), OPENING_PLIES as nat).0,
            deep,
            shallow,
            deep_side,
        ),
    )
}

/// The side the deeper engine plays in game `i` of a match.
pub open spec fn deep_side_of(i: int) -> Player {
    if i % 2 == 0 {
        Player::Black
    } else {
        Player::White
    }
}

/// The seed of game `i` of a match.
pub open spec fn game_seed(seed: u64, i: int) -> u64 {
    seed ^ (i as u64).wrapping_mul(0x9E37_79B9_7F4A_7C15u64)
}

/// Deeper wins, shallower wins and draws over the first `n` games of a match.
pub open spec fn tally(deep: u32, shallow: u32, seed: u64, n: nat) -> (nat, nat, nat)
    decreases n,
{
    if n == 0 {
        (0, 0, 0)
    } else {
        let t = tally(deep, shallow, seed, (n - 1) as nat);
        let side = deep_side_of(n - 1);
        match game_winner(deep, shallow, side, game_seed(seed, n - 1)) {
            Some(w) => if w == side {
                (t.0 + 1, t.1, t.2)
            } else {
                (t.0, t.1 + 1, t.2)
            },
            None => (t.0, t.1, t.2 + 1),
        }
    }
}

/// Every game of a match is counted exactly once: wins of either engine and
/// draws add up to the number of games.
pub proof fn lemma_tally_total(deep: u32, shallow: u32, seed: u64, n: nat)
    ensures
        tally(deep, shallow, seed, n).0 + tally(deep, shallow, seed, n).1 + tally(deep, shallow, seed, n).2 == n,
    decreases n,
{
    if n > 0 {
        lemma_tally_total(deep, shallow, seed, (n - 1) as nat);
    }
}

/// Aggregate result of a match, from the deeper engine's point of view.
#[derive(Clone, Copy, Debug, PartialEq, Eq)]
pub struct MatchResult {
    pub deep_wins: u32,
    pub shallow_wins: u32,
    pub draws: u32,
}

impl Default for MatchResult {
    fn default() -> (r: MatchResult)
        ensures
            r.deep_wins == 0,
            r.shallow_wins == 0,
            r.draws == 0,
    {
        MatchResult { deep_wins: 0, shallow_wins: 0, draws: 0 }
    }
}

/// A finished engine game ends on a terminal board.
pub proof fn lemma_engine_game(b: BoardView, deep: u32, shallow: u32, deep_side: Player)
    requires
        b.wf(),
    ensures
        engine_game(b, deep, shallow, deep_side).wf(),
        engine_game(b, deep, shallow, deep_side).is_terminal(),
    decreases game_measure(b),
{
    if !b.is_terminal() {
        if b.moves().len() == 0 {
            lemma_progress(b, 0);
            lemma_engine_game(b.after_pass(), deep, shallow, deep_side);
        } else {
            let depth = depth_for(b, deep, shallow, deep_side);
            lemma_root_choice_legal(default_heuristic(), b, depth);
            lemma_progress(b, crate::search::best_index(default_heuristic(), b, (if depth > 0 { depth - 1 } else { 0 }) as nat, b.moves().len()));
            lemma_engine_game(b.after_move(root_choice(default_heuristic(), b, depth)), deep, shallow, deep_side);
        }
    }
}

/// The opening phase keeps the board well formed.
pub proof fn lemma_opening_plies(b: BoardView, state: u64, k: nat)
    requires
        b.wf(),
    ensures
        opening_plies(b, state, k).0.wf(),
    decreases k,
{
    if k > 0 && !b.is_terminal() {
        if b.moves().len() == 0 {
            lemma_progress(b, 0);
            lemma_opening_plies(b.after_pass(), state, (k - 1) as nat);
        } else {
            lemma_moves(b.cells, b.to_move);
            let n = b.moves().len() as u64;
            assert(crate::rng::scramble(xorshift(state)) % n < n);
            lemma_progress(b, random_pick(b, state));
            lemma_opening_plies(b.after_move(b.moves()[random_pick(b, state)]), xorshift(state), (k - 1) as nat);
        }
    }
}

/// Play one game to completion. `deep_side` searches to `deep` plies, the other
/// side to `shallow`. Returns the winner, or `None` for a draw.
pub fn play_game(deep: u32, shallow: u32, deep_side: Player, seed: u64) -> (r: Option<Player>)
    ensures
        r == game_winner(deep, shallow, deep_side, seed),
{
    let heuristic = Heuristic::new();
    let mut board = Board::new();
    let mut rng = SmallRng::new(seed);
    let ghost s0 = rng@;
    proof {
        lemma_board_wf(board);
        lemma_opening_plies(board@, rng@, OPENING_PLIES as nat);
    }
    let mut k: usize = 0;
    while k < OPENING_PLIES
        invariant
            k <= OPENING_PLIES,
            board@.wf(),
            opening_plies(opening(), s0, OPENING_PLIES as nat) == opening_plies(
                board@,
                rng@,
                (OPENING_PLIES - k) as nat,
            ),
        ensures
            board@.wf(),
            opening_plies(opening(), s0, OPENING_PLIES as nat).0 == board@,
        decreases OPENING_PLIES - k,
    {
        if board.is_terminal() {
            break;
        }
        let moves = board.legal_moves();
        if moves.len() == 0 {
            proof {
                lemma_progress(board@, 0);
            }
            board = board.pass();
            k = k + 1;
            continue;
        }
        let ghost before = board@;
        proof {
            lemma_moves(board@.cells, board@.to_move);
        }
        let pick = rng.below(moves.len());
        proof {
            assert(square_indices(moves@)[pick as int] == moves@[pick as int]@);
            lemma_progress(before, pick as int);
        }
        board = board.apply(moves[pick]).unwrap();
        k = k + 1;
    }
    let ghost mid = board@;
    proof {
        lemma_engine_game(mid, deep, shallow, deep_side);
    }
    while !board.is_terminal()
        invariant
            board@.wf(),
            heuristic == default_heuristic(),
            engine_game(mid, deep, shallow, deep_side) == engine_game(board@, deep, shallow, deep_side),
        decreases game_measure(board@),
    {
        let moves = board.legal_moves();
        if moves.len() == 0 {
            proof {
                lemma_progress(board@, 0);
            }
            board = board.pass();
            continue;
        }
        let depth = if board.to_move() == deep_side {
            deep
        } else {
            shallow
        };
        let ghost before = board@;
        let result = search(&board, depth, &heuristic);
        let mv = result.best_move.unwrap();
        proof {
            lemma_root_choice_legal(default_heuristic(), before, depth as nat);
            lemma_progress(
                before,
                crate::search::best_index(
                    default_heuristic(),
                    before,
                    (if depth > 0 { depth - 1 } else { 0 }) as nat,
                    before.moves().len(),
                ),
            );
        }
        board = board.apply(mv).unwrap();
    }
    match board.outcome().unwrap() {
        Outcome::Win(player) => Some(player),
        Outcome::Draw => None,
    }
}

/// Play `games` games, alternating which colour the deeper engine plays so that
/// first-move advantage cancels out. `seed` makes the whole match reproducible.
pub fn play_match(deep: u32, shallow: u32, games: usize, seed: u64) -> (r: MatchResult)
    requires
        games <= 0xffff_ffff,
    ensures
        (r.deep_wins as nat, r.shallow_wins as nat, r.draws as nat) == tally(deep, shallow, seed, games as nat),
        r.deep_wins + r.shallow_wins + r.draws == games,
{
    let mut result = MatchResult::default();
    let mut i: usize = 0;
    while i < games
        invariant
            i <= games,
            games <= 0xffff_ffff,
            (result.deep_wins as nat, result.shallow_wins as nat, result.draws as nat) == tally(
                deep,
                shallow,
                seed,
                i as nat,
            ),
            result.deep_wins + result.shallow_wins + result.draws == i,
        decreases games - i,
    {
        let deep_side = if i % 2 == 0 {
            Player::Black
        } else {
            Player::White
        };
        let game_seed = seed ^ (i as u64).wrapping_mul(0x9E37_79B9_7F4A_7C15);
        match play_game(deep, shallow, deep_side, game_seed) {
            Some(winner) => {
                if winner == deep_side {
                    result.deep_wins = result.deep_wins + 1;
                } else {
                    result.shallow_wins = result.shallow_wins + 1;
                }
            },
            None => {
                result.draws = result.draws + 1;
            },
        }
        i = i + 1;
    }
    proof {
        lemma_tally_total(deep, shallow, seed, games as nat);
    }
    result
}

} // verus!
