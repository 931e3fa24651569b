//! Random self-play: drive a game to completion with random legal moves.

use vstd::prelude::*;

use crate::board::{lemma_board_wf, square_indices, Board};
use crate::rng::{scramble, xorshift, SmallRng};
use crate::rules::{lemma_after_move_counts, lemma_moves, opening, BoardView, Outcome};

verus! {

/// What drives the termination of a game loop: every move fills a square, and
/// a pass is always followed by a move.
pub open spec fn game_measure(b: BoardView) -> int {
    2 * b.empties() + (if b.moves().len() == 0 { 1int } else { 0int })
}

/// A legal move or a forced pass brings the game closer to its end.
pub proof fn lemma_progress(b: BoardView, k: int)
    requires
        b.wf(),
        !b.is_terminal(),
        b.moves().len() > 0 ==> 0 <= k < b.moves().len(),
    ensures
        b.moves().len() == 0 ==> b.after_pass().wf() && game_measure(b.after_pass()) < game_measure(b),
        b.moves().len() > 0 ==> b.after_move(b.moves()[k]).wf() && game_measure(b.after_move(b.moves()[k]))
            < game_measure(b),
        game_measure(b) >= 0,
{
    if b.moves().len() > 0 {
        lemma_moves(b.cells, b.to_move);
        lemma_after_move_counts(b, b.moves()[k]);
    }
}

/// The move a random player picks: index `scramble(xorshift(state)) % n` of its
/// `n` legal moves.
pub open spec fn random_pick(b: BoardView, state: u64) -> int {
    (scramble(xorshift(state)) % (b.moves().len() as u64)) as int
}

/// The rest of a random game from `b` with generator state `state`: the final
/// board and the number of half-moves played (passes included).
pub open spec fn random_game(b: BoardView, state: u64) -> (BoardView, nat)
    decreases game_measure(b),
{
    if !b.wf() || b.is_terminal() {
        (b, 0)
    } else if b.moves().len() == 0 {
        proof {
            lemma_progress(b, 0);
        }
        let r = random_game(b.after_pass(), state);
        (r.0, r.1 + 1)
    } else {
        let k = random_pick(b, state);
        proof {
            lemma_moves(b.cells, b.to_move);
            let n = b.moves().len() as u64;
            assert(scramble(xorshift(state)) % n < n);
            lemma_progress(b, k);
        }
        let r = random_game(b.after_move(b.moves()[k]), xorshift(state));
        (r.0, r.1 + 1)
    }
}

/// The result of one played-out game.
pub struct Playout {
    /// Who won, or a draw.
    pub outcome: Outcome,
    /// Number of half-moves taken, counting forced passes.
    pub plies: u32,
}

/// A random game ends on a terminal board within `game_measure` plies.
pub proof fn lemma_random_game(b: BoardView, state: u64)
    requires
        b.wf(),
    ensures
        random_game(b, state).0.wf(),
        random_game(b, state).0.is_terminal(),
        random_game(b, state).1 <= game_measure(b),
    decreases game_measure(b),
{
    if !b.is_terminal() {
        if b.moves().len() == 0 {
            lemma_progress(b, 0);
            lemma_random_game(b.after_pass(), state);
        } else {
            let k = random_pick(b, state);
            lemma_moves(b.cells, b.to_move);
            let n = b.moves().len() as u64;
            assert(scramble(xorshift(state)) % n < n);
            lemma_progress(b, k);
            lemma_random_game(b.after_move(b.moves()[k]), xorshift(state));
        }
    }
}

/// Play one game from the opening, choosing uniformly among legal moves and
/// passing when required, until the position is terminal. Deterministic in
/// `seed`: the same seed always produces the same game.
pub fn random_playout(seed: u64) -> (r: Playout)
    ensures
        Some(r.outcome) == random_game(opening(), (if seed == 0 { 1 } else { seed })).0.outcome(),
        r.plies == random_game(opening(), (if seed == 0 { 1 } else { seed })).1,
{
    let mut board = Board::new();
    let mut rng = SmallRng::new(seed);
    let mut plies: u32 = 0;
    let ghost start = board@;
    proof {
        lemma_board_wf(board);
        lemma_random_game(board@, rng@);
        crate::rules::lemma_counts_sum(board@);
    }
    loop
        invariant
            board@.wf(),
            random_game(start, (if seed == 0 { 1 } else { seed })) == (random_game(board@, rng@).0, (random_game(
                board@,
                rng@,
            ).1 + plies) as nat),
            plies + game_measure(board@) <= 129,
            game_measure(board@) >= 0,
        ensures
            board@.wf(),
            board@.is_terminal(),
            random_game(start, (if seed == 0 { 1 } else { seed })) == (board@, plies as nat),
        decreases game_measure(board@),
    {
        if board.is_terminal() {
            assert(random_game(board@, rng@) == (board@, 0nat));
            break;
        }
        let moves = board.legal_moves();
        proof {
            lemma_moves(board@.cells, board@.to_move);
        }
        if moves.len() == 0 {
            proof {
                lemma_progress(board@, 0);
            }
            board = board.pass();
        } else {
            let ghost before = board@;
            let ghost st = rng@;
            let pick = rng.below(moves.len());
            proof {
                assert(square_indices(moves@)[pick as int] == moves@[pick as int]@);
                lemma_progress(before, pick as int);
            }
            board = board.apply(moves[pick]).unwrap();
        }
        plies = plies + 1;
    }
    proof {
        lemma_random_game(board@, rng@);
    }
    Playout { outcome: board.outcome().unwrap(), plies }
}

} // verus!
