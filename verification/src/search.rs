//! Minimax search with alpha-beta pruning, in negamax form.
//!
//! Because Reversi is zero-sum, one player's score is the negation of the
//! other's, so a single routine handles both sides by flipping signs. `alpha`
//! is the best score the side to move has already secured, `beta` the best the
//! opponent will allow; once `alpha >= beta` the rest of a node is irrelevant.
//!
//! The search is proved to return exactly the negamax value
//! ([`negamax_value`]) of the position: pruning never changes the answer.

use vstd::prelude::*;

use crate::board::{square_indices, Board};
use crate::player::{other, Player};
use crate::rules::{legal, lemma_after_move_counts, lemma_counts_sum, lemma_moves, BoardView};
use crate::square::Square;

verus! {

/// A bound comfortably outside any real score, used to open the search window.
pub const INF: i32 = 1_000_000_000;

/// Value of a finished game per net disc. Large enough that any proven
/// win/loss outranks every heuristic leaf score.
pub const TERMINAL_UNIT: i32 = 1_000_000;

/// Scores a position from `perspective`'s point of view: larger is better for
/// that player. Only the ordering of scores matters.
///
/// For search to reason correctly the score should be zero-sum: swapping the
/// perspective should negate the score.
pub trait Evaluator {
    /// The configurations under which the evaluator's scores stay strictly
    /// inside the search window `(-INF, INF)`.
    spec fn valid(&self) -> bool;

    /// The score the evaluator gives `board` from `perspective`'s side.
    spec fn score(&self, board: BoardView, perspective: Player) -> int;

    /// Scores of a valid evaluator lie strictly inside `(-INF, INF)`.
    proof fn lemma_score_bounds(&self, board: BoardView, perspective: Player)
        requires
            self.valid(),
            board.wf(),
        ensures
            -1_000_000_000 < self.score(board, perspective) < 1_000_000_000,
    ;

    /// Score `board` from `perspective`'s point of view.
    fn evaluate(&self, board: &Board, perspective: Player) -> (r: i32)
        requires
            self.valid(),
        ensures
            r == self.score(board@, perspective),
    ;
}

/// A plain evaluator: the disc-count difference.
#[derive(Clone, Copy, Debug)]
pub struct DiscCount;

impl Evaluator for DiscCount {
    open spec fn valid(&self) -> bool {
        true
    }

    /// My discs minus the opponent's.
    open spec fn score(&self, board: BoardView, perspective: Player) -> int {
        board.discs(perspective) - board.discs(other(perspective))
    }

    proof fn lemma_score_bounds(&self, board: BoardView, perspective: Player) {
        lemma_counts_sum(board);
        match perspective {
            Player::Black => {},
            Player::White => {},
        }
    }

    fn evaluate(&self, board: &Board, perspective: Player) -> (r: i32) {
        proof {
            crate::board::lemma_board_wf(*board);
            lemma_counts_sum(board@);
            match perspective {
                Player::Black => {},
                Player::White => {},
            }
        }
        board.count(perspective) as i32 - board.count(perspective.opponent()) as i32
    }
}

/// Exact score of a finished game from the side-to-move's perspective.
pub open spec fn terminal_value(b: BoardView) -> int {
    (b.discs(b.to_move) - b.discs(other(b.to_move))) * 1_000_000
}

/// The larger of two integers.
pub open spec fn max_int(a: int, b: int) -> int {
    if a >= b {
        a
    } else {
        b
    }
}

/// The negamax value of `b` searched `depth` plies deep: exact at finished
/// games, the evaluator at the horizon, the negated value after a forced pass
/// (which costs no depth), and otherwise the best negated child value.
pub open spec fn negamax_value<E: Evaluator>(ev: E, b: BoardView, depth: nat) -> int
    decreases depth, (if b.moves().len() == 0 { 2int } else { 1int }), 0int,
{
    if b.is_terminal() {
        terminal_value(b)
    } else if depth == 0 {
        ev.score(b, b.to_move)
    } else if b.moves().len() == 0 {
        -negamax_value(ev, b.after_pass(), depth)
    } else {
        best_child(ev, b, (depth - 1) as nat, b.moves().len())
    }
}

/// The value for the side to move of playing its `k`-th legal move and then
/// searching `d` plies.
pub open spec fn child_value<E: Evaluator>(ev: E, b: BoardView, d: nat, k: int) -> int
    decreases d, 3int, 0int,
{
    -negamax_value(ev, b.after_move(b.moves()[k]), d)
}

/// The best child value among the first `k` legal moves (`-INF` when `k == 0`).
pub open spec fn best_child<E: Evaluator>(ev: E, b: BoardView, d: nat, k: nat) -> int
    decreases d + 1, 0int, k,
{
    if k == 0 {
        -1_000_000_000
    } else {
        max_int(best_child(ev, b, d, (k - 1) as nat), child_value(ev, b, d, k - 1))
    }
}

/// The position of the first of the first `k` legal moves reaching
/// [`best_child`] (for `k >= 1`).
pub open spec fn best_index<E: Evaluator>(ev: E, b: BoardView, d: nat, k: nat) -> int
    decreases k,
{
    if k <= 1 {
        0
    } else if child_value(ev, b, d, k - 1) > best_child(ev, b, d, (k - 1) as nat) {
        k - 1
    } else {
        best_index(ev, b, d, (k - 1) as nat)
    }
}

/// The score [`search`] reports: the root always looks one ply ahead (at least),
/// and a root without moves is valued as in [`negamax_value`].
pub open spec fn root_value<E: Evaluator>(ev: E, b: BoardView, depth: nat) -> int {
    if b.moves().len() == 0 {
        if b.is_terminal() {
            terminal_value(b)
        } else {
            -negamax_value(ev, b.after_pass(), depth)
        }
    } else {
        best_child(ev, b, (if depth > 0 { depth - 1 } else { 0 }) as nat, b.moves().len())
    }
}

/// The move [`search`] picks: the first legal move with the best child value.
pub open spec fn root_choice<E: Evaluator>(ev: E, b: BoardView, depth: nat) -> int {
    b.moves()[best_index(ev, b, (if depth > 0 { depth - 1 } else { 0 }) as nat, b.moves().len())]
}

/// Search values lie strictly inside the search window.
pub proof fn lemma_value_bounds<E: Evaluator>(ev: E, b: BoardView, depth: nat)
    requires
        ev.valid(),
        b.wf(),
    ensures
        -1_000_000_000 < negamax_value(ev, b, depth) < 1_000_000_000,
    decreases depth, (if b.moves().len() == 0 { 2int } else { 1int }), 0int,
{
    if b.is_terminal() {
        lemma_counts_sum(b);
    } else if depth == 0 {
        ev.lemma_score_bounds(b, b.to_move);
    } else if b.moves().len() == 0 {
        lemma_value_bounds(ev, b.after_pass(), depth);
    } else {
        lemma_best_child_bounds(ev, b, (depth - 1) as nat, b.moves().len());
    }
}

/// Best child values lie in `[-INF, INF)`, strictly above `-INF` once a move
/// has been looked at.
pub proof fn lemma_best_child_bounds<E: Evaluator>(ev: E, b: BoardView, d: nat, k: nat)
    requires
        ev.valid(),
        b.wf(),
        k <= b.moves().len(),
    ensures
        -1_000_000_000 <= best_child(ev, b, d, k) < 1_000_000_000,
        k > 0 ==> -1_000_000_000 < best_child(ev, b, d, k),
        k > 0 ==> -1_000_000_000 < child_value(ev, b, d, k - 1) < 1_000_000_000,
    decreases d + 1, 0int, k,
{
    if k > 0 {
        lemma_best_child_bounds(ev, b, d, (k - 1) as nat);
        lemma_moves(b.cells, b.to_move);
        let m = b.moves()[k - 1];
        lemma_after_move_counts(b, m);
        lemma_value_bounds(ev, b.after_move(m), d);
        assert(child_value(ev, b, d, k - 1) == -negamax_value(ev, b.after_move(m), d));
        assert(best_child(ev, b, d, k) == max_int(best_child(ev, b, d, (k - 1) as nat), child_value(ev, b, d, k - 1)));
    } else {
        assert(best_child(ev, b, d, k) == -1_000_000_000);
    }
}

/// The best child value only grows as more moves are considered.
pub proof fn lemma_best_child_monotone<E: Evaluator>(ev: E, b: BoardView, d: nat, j: nat, k: nat)
    requires
        j <= k,
    ensures
        best_child(ev, b, d, j) <= best_child(ev, b, d, k),
    decreases k,
{
    if j < k {
        lemma_best_child_monotone(ev, b, d, j, (k - 1) as nat);
    }
}

/// The chosen index is one of the moves looked at.
pub proof fn lemma_best_index_range<E: Evaluator>(ev: E, b: BoardView, d: nat, k: nat)
    requires
        k >= 1,
    ensures
        0 <= best_index(ev, b, d, k) < k,
    decreases k,
{
    if k > 1 {
        lemma_best_index_range(ev, b, d, (k - 1) as nat);
    }
}

/// The move [`search`] picks is a legal move of the side to move.
pub proof fn lemma_root_choice_legal<E: Evaluator>(ev: E, b: BoardView, depth: nat)
    requires
        b.moves().len() > 0,
    ensures
        0 <= best_index(ev, b, (if depth > 0 { depth - 1 } else { 0 }) as nat, b.moves().len()) < b.moves().len(),
        0 <= root_choice(ev, b, depth) < 64,
        legal(b.cells, b.to_move, root_choice(ev, b, depth)),
{
    lemma_best_index_range(ev, b, (if depth > 0 { depth - 1 } else { 0 }) as nat, b.moves().len());
    lemma_moves(b.cells, b.to_move);
}

/// The best of the first `k` child values is at least each of them and is
/// attained by the child [`best_index`] picks.
proof fn lemma_best_child_is_max<E: Evaluator>(ev: E, b: BoardView, d: nat, k: nat)
    requires
        ev.valid(),
        b.wf(),
        1 <= k <= b.moves().len(),
    ensures
        forall|j: int| 0 <= j < k ==> best_child(ev, b, d, k) >= #[trigger] child_value(ev, b, d, j),
        best_child(ev, b, d, k) == child_value(ev, b, d, best_index(ev, b, d, k)),
    decreases k,
{
    lemma_best_child_bounds(ev, b, d, k);
    if k > 1 {
        lemma_best_child_is_max(ev, b, d, (k - 1) as nat);
    } else {
        assert(best_child(ev, b, d, 0) == -1_000_000_000);
    }
}

/// A forced pass is zero-sum: when the side to move has no move in a game
/// that is not over, its value is the negation of the opponent's value of the
/// same discs (a pass costs no depth).
pub proof fn lemma_pass_is_zero_sum<E: Evaluator>(ev: E, b: BoardView, depth: nat)
    requires
        !b.is_terminal(),
        b.moves().len() == 0,
        depth > 0,
    ensures
        negamax_value(ev, b, depth) == -negamax_value(ev, b.after_pass(), depth),
{
}

/// A finished game is worth its disc difference from the side to move,
/// scaled by [`TERMINAL_UNIT`], at every depth.
pub proof fn lemma_finished_game_value<E: Evaluator>(ev: E, b: BoardView, depth: nat)
    requires
        b.is_terminal(),
    ensures
        negamax_value(ev, b, depth) == (b.discs(b.to_move) - b.discs(other(b.to_move))) * 1_000_000,
{
}

/// With moves to make, a position is worth the best of its moves: at least
/// the negated value of every move's result one ply shallower, and exactly
/// that of the move [`search`] picks.
pub proof fn lemma_value_is_best_reply<E: Evaluator>(ev: E, b: BoardView, depth: nat)
    requires
        ev.valid(),
        b.wf(),
        !b.is_terminal(),
        b.moves().len() > 0,
        depth > 0,
    ensures
        forall|j: int|
            0 <= j < b.moves().len() ==> negamax_value(ev, b, depth) >= -negamax_value(
                ev,
                #[trigger] b.after_move(b.moves()[j]),
                (depth - 1) as nat,
            ),
        negamax_value(ev, b, depth) == -negamax_value(ev, b.after_move(root_choice(ev, b, depth)), (depth - 1) as nat),
{
    let d = (depth - 1) as nat;
    let n = b.moves().len();
    lemma_best_child_is_max(ev, b, d, n);
    assert forall|j: int| 0 <= j < n implies negamax_value(ev, b, depth) >= -negamax_value(
        ev,
        #[trigger] b.after_move(b.moves()[j]),
        d,
    ) by {
        assert(child_value(ev, b, d, j) == -negamax_value(ev, b.after_move(b.moves()[j]), d));
    }
    lemma_best_index_range(ev, b, d, n);
}

/// From depth one on, [`search`]'s score is the position's negamax value.
pub proof fn lemma_search_score_is_value<E: Evaluator>(ev: E, b: BoardView, depth: nat)
    requires
        depth > 0,
    ensures
        root_value(ev, b, depth) == negamax_value(ev, b, depth),
{
}

/// The result of a search: the chosen move (if the side to move has one) and
/// its score from that side's perspective.
#[derive(Clone, Copy, PartialEq, Eq, Debug)]
pub struct SearchResult {
    pub best_move: Option<Square>,
    pub score: i32,
}

/// Exact score of a finished game from the side-to-move's perspective.
fn terminal_score(board: &Board) -> (r: i32)
    ensures
        r == terminal_value(board@),
{
    proof {
        crate::board::lemma_board_wf(*board);
        lemma_counts_sum(board@);
    }
    let me = board.count(board.to_move()) as i32;
    let opp = board.count(board.to_move().opponent()) as i32;
    (me - opp) * TERMINAL_UNIT
}

/// Negamax value of `board` for the side to move, searched within the window
/// `(alpha, beta)`: exact inside the window, and on the correct side of it
/// otherwise.
fn negamax<E: Evaluator>(board: &Board, depth: u32, alpha: i32, beta: i32, evaluator: &E) -> (r: i32)
    requires
        evaluator.valid(),
        -INF <= alpha < beta <= INF,
    ensures
        -INF <= r <= INF,
        negamax_value(*evaluator, board@, depth as nat) <= alpha ==> r <= alpha,
        negamax_value(*evaluator, board@, depth as nat) >= beta ==> r >= beta,
        alpha < negamax_value(*evaluator, board@, depth as nat) < beta ==> r == negamax_value(
            *evaluator,
            board@,
            depth as nat,
        ),
    decreases depth, (if board@.moves().len() == 0 { 2int } else { 1int }),
{
    let ghost ev = *evaluator;
    let ghost b = board@;
    proof {
        crate::board::lemma_board_wf(*board);
        lemma_value_bounds(ev, b, depth as nat);
    }
    if board.is_terminal() {
        return terminal_score(board);
    }
    if depth == 0 {
        return evaluator.evaluate(board, board.to_move());
    }
    let moves = board.legal_moves();
    if moves.len() == 0 {
        let passed = board.pass();
        let v = negamax(&passed, depth, -beta, -alpha, evaluator);
        return -v;
    }
    let ghost n = b.moves().len();
    let ghost d = (depth - 1) as nat;
    proof {
        lemma_moves(b.cells, b.to_move);
        assert(moves@.len() == n);
    }
    let mut best: i32 = -INF;
    let mut a: i32 = alpha;
    let mut i: usize = 0;
    while i < moves.len()
        invariant
            evaluator.valid(),
            ev == *evaluator,
            b == board@,
            b.wf(),
            !b.is_terminal(),
            depth > 0,
            d == depth - 1,
            n == b.moves().len(),
            n == moves@.len(),
            square_indices(moves@) == b.moves(),
            forall|k: int| 0 <= k < n ==> 0 <= #[trigger] b.moves()[k] < 64 && legal(b.cells, b.to_move, b.moves()[k]),
            -INF <= alpha < beta <= INF,
            i <= n,
            -INF <= best <= INF,
            best_child(ev, b, d, i as nat) < beta,
            best < beta,
            a == max_int(alpha as int, best as int),
            best_child(ev, b, d, i as nat) <= alpha ==> best <= alpha,
            alpha < best_child(ev, b, d, i as nat) ==> best == best_child(ev, b, d, i as nat),
        decreases n - i,
    {
        let mv = moves[i];
        proof {
            assert(square_indices(moves@)[i as int] == mv@);
            lemma_best_child_bounds(ev, b, d, (i + 1) as nat);
            lemma_after_move_counts(b, mv@);
        }
        let child = board.apply(mv).unwrap();
        let child_r = negamax(&child, depth - 1, -beta, -a, evaluator);
        let score = -child_r;
        if score > best {
            best = score;
        }
        if best > a {
            a = best;
        }
        if a >= beta {
            proof {
                lemma_best_child_monotone(ev, b, d, (i + 1) as nat, n);
            }
            return best;
        }
        i = i + 1;
    }
    best
}

/// Search `board` to `depth` plies with `evaluator`, returning the best move
/// for the side to move. If the side to move has no legal move, `best_move` is
/// `None` and the caller should pass; the score still reflects the position.
pub fn search<E: Evaluator>(board: &Board, depth: u32, evaluator: &E) -> (r: SearchResult)
    requires
        evaluator.valid(),
    ensures
        r.best_move is None <==> board@.moves().len() == 0,
        r.best_move matches Some(mv) ==> mv@ == root_choice(*evaluator, board@, depth as nat),
        r.score == root_value(*evaluator, board@, depth as nat),
{
    let ghost ev = *evaluator;
    let ghost b = board@;
    proof {
        crate::board::lemma_board_wf(*board);
        lemma_moves(b.cells, b.to_move);
    }
    let moves = board.legal_moves();
    if moves.len() == 0 {
        let score = if board.is_terminal() {
            terminal_score(board)
        } else {
            let passed = board.pass();
            proof {
                lemma_value_bounds(ev, passed@, depth as nat);
            }
            -negamax(&passed, depth, -INF, INF, evaluator)
        };
        return SearchResult { best_move: None, score };
    }
    let ghost n = b.moves().len();
    let child_depth = depth.saturating_sub(1);
    let ghost d = child_depth as nat;
    assert(moves@.len() == n);
    let mut best: i32 = -INF;
    let mut best_move: Option<Square> = None;
    let mut alpha: i32 = -INF;
    let mut i: usize = 0;
    while i < moves.len()
        invariant
            evaluator.valid(),
            ev == *evaluator,
            b == board@,
            b.wf(),
            d == child_depth,
            n == b.moves().len(),
            n == moves@.len(),
            n > 0,
            square_indices(moves@) == b.moves(),
            forall|k: int| 0 <= k < n ==> 0 <= #[trigger] b.moves()[k] < 64 && legal(b.cells, b.to_move, b.moves()[k]),
            i <= n,
            best == best_child(ev, b, d, i as nat),
            alpha == best,
            i == 0 ==> best_move is None,
            i > 0 ==> (best_move matches Some(mv) && mv@ == b.moves()[best_index(ev, b, d, i as nat)]),
        decreases n - i,
    {
        let mv = moves[i];
        proof {
            assert(square_indices(moves@)[i as int] == mv@);
            lemma_best_child_bounds(ev, b, d, (i + 1) as nat);
            lemma_best_child_bounds(ev, b, d, i as nat);
            lemma_after_move_counts(b, mv@);
        }
        let child = board.apply(mv).unwrap();
        let child_r = negamax(&child, child_depth, -INF, -alpha, evaluator);
        let score = -child_r;
        if score > best {
            best = score;
            best_move = Some(mv);
        }
        if best > alpha {
            alpha = best;
        }
        i = i + 1;
    }
    SearchResult { best_move, score: best }
}

} // verus!
