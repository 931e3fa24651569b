//! A handcrafted Reversi evaluator: corner control, mobility, and disc parity.

use vstd::prelude::*;

use crate::board::Board;
use crate::player::{other, Cell, Player};
use crate::rules::{lemma_counts_sum, lemma_moves, moves, BoardView};
use crate::search::Evaluator;
use crate::square::Square;

verus! {

/// Absolute value.
pub open spec fn abs_int(x: int) -> int {
    if x < 0 {
        -x
    } else {
        x
    }
}

/// How many of the four corners `p` holds.
pub open spec fn corner_count(cells: Seq<Cell>, p: Player) -> int {
    (if cells[0] == Cell::Disc(p) { 1int } else { 0int }) + (if cells[7] == Cell::Disc(p) { 1int } else { 0int })
        + (if cells[56] == Cell::Disc(p) { 1int } else { 0int }) + (if cells[63] == Cell::Disc(p) { 1int } else { 0int })
}

/// A weighted sum of simple positional terms. Weights are hand-tuned, not
/// learned.
///
/// Corners are worth far more than raw discs, mobility matters (having moves,
/// and denying the opponent theirs), and the disc count itself is only a mild
/// factor until the endgame.
pub struct Heuristic {
    pub corner: i32,
    pub mobility: i32,
    pub parity: i32,
}

impl Heuristic {
    /// The default weights.
    pub fn new() -> (r: Heuristic)
        ensures
            r.corner == 25,
            r.mobility == 5,
            r.parity == 1,
            r.valid(),
    {
        Heuristic { corner: 25, mobility: 5, parity: 1 }
    }
}

impl Default for Heuristic {
    fn default() -> (r: Heuristic)
        ensures
            r.corner == 25,
            r.mobility == 5,
            r.parity == 1,
    {
        Heuristic::new()
    }
}

/// `|w * x| <= |w| * k` when `|x| <= k`.
proof fn lemma_weighted_bound(w: int, x: int, k: int)
    requires
        abs_int(x) <= k,
    ensures
        abs_int(w * x) <= abs_int(w) * k,
{
    assert(abs_int(w * x) == abs_int(w) * abs_int(x)) by (nonlinear_arith);
    assert(abs_int(w) * abs_int(x) <= abs_int(w) * k) by (nonlinear_arith)
        requires
            abs_int(x) <= k,
            abs_int(w) >= 0,
    ;
}

/// Bounds on the three terms' differences.
proof fn lemma_term_bounds(b: BoardView, p: Player)
    requires
        b.wf(),
    ensures
        abs_int(corner_count(b.cells, p) - corner_count(b.cells, other(p))) <= 4,
        abs_int(moves(b.cells, p).len() - moves(b.cells, other(p)).len()) <= 64,
        abs_int(b.discs(p) - b.discs(other(p))) <= 64,
        moves(b.cells, p).len() <= 64,
        moves(b.cells, other(p)).len() <= 64,
        b.discs(p) <= 64,
        b.discs(other(p)) <= 64,
{
    lemma_moves(b.cells, p);
    lemma_moves(b.cells, other(p));
    lemma_counts_sum(b);
    match p {
        Player::Black => {},
        Player::White => {},
    }
}

impl Evaluator for Heuristic {
    /// Every weighted term fits, and their sum stays inside the search window.
    open spec fn valid(&self) -> bool {
        abs_int(self.corner as int) * 4 + abs_int(self.mobility as int) * 64 + abs_int(self.parity as int) * 64
            < 1_000_000_000
    }

    /// Corners, mobility and discs, each as "mine minus the opponent's".
    open spec fn score(&self, board: BoardView, perspective: Player) -> int {
        self.corner * (corner_count(board.cells, perspective) - corner_count(board.cells, other(perspective)))
            + self.mobility * (moves(board.cells, perspective).len() - moves(
            board.cells,
            other(perspective),
        ).len()) + self.parity * (board.discs(perspective) - board.discs(other(perspective)))
    }

    proof fn lemma_score_bounds(&self, board: BoardView, perspective: Player) {
        let p = perspective;
        lemma_term_bounds(board, p);
        let c = corner_count(board.cells, p) - corner_count(board.cells, other(p));
        let m = moves(board.cells, p).len() - moves(board.cells, other(p)).len();
        let d = board.discs(p) - board.discs(other(p));
        lemma_weighted_bound(self.corner as int, c, 4);
        lemma_weighted_bound(self.mobility as int, m, 64);
        lemma_weighted_bound(self.parity as int, d, 64);
    }

    fn evaluate(&self, board: &Board, perspective: Player) -> (r: i32) {
        let me = perspective;
        let opp = perspective.opponent();
        proof {
            crate::board::lemma_board_wf(*board);
            lemma_term_bounds(board@, me);
        }
        let ch_me = corners_held(board, me);
        let ch_opp = corners_held(board, opp);
        let mob_me = board.mobility(me) as i32;
        let mob_opp = board.mobility(opp) as i32;
        let disc_me = board.count(me) as i32;
        let disc_opp = board.count(opp) as i32;
        proof {
            lemma_weighted_bound(self.corner as int, ch_me - ch_opp, 4);
            lemma_weighted_bound(self.mobility as int, mob_me - mob_opp, 64);
            lemma_weighted_bound(self.parity as int, disc_me - disc_opp, 64);
        }
        let corner = self.corner * (ch_me - ch_opp);
        let mobility = self.mobility * (mob_me - mob_opp);
        let parity = self.parity * (disc_me - disc_opp);
        corner + mobility + parity
    }
}

/// How many corners `player` currently holds.
fn corners_held(board: &Board, player: Player) -> (r: i32)
    ensures
        r == corner_count(board@.cells, player),
        0 <= r <= 4,
{
    let corners: [(u8, u8); 4] = [(0, 0), (0, 7), (7, 0), (7, 7)];
    let mut n: i32 = 0;
    let mut k: usize = 0;
    while k < 4
        invariant
            k <= 4,
            corners@ == seq![(0u8, 0u8), (0u8, 7u8), (7u8, 0u8), (7u8, 7u8)],
            0 <= n <= k,
            n == (if k > 0 && board@.cells[0] == Cell::Disc(player) { 1int } else { 0int }) + (if k > 1
                && board@.cells[7] == Cell::Disc(player) { 1int } else { 0int }) + (if k > 2 && board@.cells[56]
                == Cell::Disc(player) { 1int } else { 0int }) + (if k > 3 && board@.cells[63] == Cell::Disc(
                player,
            ) { 1int } else { 0int }),
        decreases 4 - k,
    {
        let (row, col) = corners[k];
        let sq = Square::new(row, col).unwrap();
        if board.cell(sq) == Cell::Disc(player) {
            n = n + 1;
        }
        k = k + 1;
    }
    n
}

/// The four corner squares.
pub open spec fn is_corner(i: int) -> bool {
    i == 0 || i == 7 || i == 56 || i == 63
}

/// The corner count looks at the corners only: changing any other square
/// leaves it as it was.
pub proof fn lemma_corner_count_ignores_non_corners(cells: Seq<Cell>, p: Player, j: int, x: Cell)
    requires
        cells.len() == 64,
        0 <= j < 64,
        !is_corner(j),
    ensures
        corner_count(cells.update(j, x), p) == corner_count(cells, p),
{
}

/// Each of the four corners counts once: a corner holding `p`'s disc counts
/// one more than the same corner empty.
pub proof fn lemma_each_corner_counts_once(cells: Seq<Cell>, p: Player, k: int)
    requires
        cells.len() == 64,
        is_corner(k),
    ensures
        corner_count(cells.update(k, Cell::Disc(p)), p) == corner_count(cells.update(k, Cell::Empty), p) + 1,
        corner_count(cells.update(k, Cell::Disc(other(p))), p) == corner_count(cells.update(k, Cell::Empty), p),
{
    crate::player::lemma_opponent_involution(p);
}

/// With no disc on any corner, no corner is counted.
pub proof fn lemma_bare_corners_count_zero(cells: Seq<Cell>, p: Player)
    requires
        cells.len() == 64,
        forall|k: int| 0 <= k < 64 && is_corner(k) ==> cells[k] == Cell::Empty,
    ensures
        corner_count(cells, p) == 0,
{
    assert(is_corner(0) && is_corner(7) && is_corner(56) && is_corner(63));
}

/// The board mirrored left to right.
pub open spec fn mirrored(cells: Seq<Cell>) -> Seq<Cell> {
    Seq::new(64, |i: int| cells[(i / 8) * 8 + (7 - i % 8)])
}

/// Mirroring the board left to right keeps the corner count.
pub proof fn lemma_corner_count_mirror(cells: Seq<Cell>, p: Player)
    requires
        cells.len() == 64,
    ensures
        corner_count(mirrored(cells), p) == corner_count(cells, p),
{
    let m = mirrored(cells);
    assert(m[0] == cells[7]);
    assert(m[7] == cells[0]);
    assert(m[56] == cells[63]);
    assert(m[63] == cells[56]);
}

/// The heuristic is zero-sum: swapping the perspective negates the score.
pub proof fn lemma_heuristic_zero_sum(h: Heuristic, b: BoardView, p: Player)
    ensures
        h.score(b, p) == -h.score(b, other(p)),
{
    let c = corner_count(b.cells, p) - corner_count(b.cells, other(p));
    let m = moves(b.cells, p).len() - moves(b.cells, other(p)).len();
    let d = b.discs(p) - b.discs(other(p));
    assert(other(other(p)) == p);
    assert(h.corner * c == -(h.corner * (-c))) by (nonlinear_arith);
    assert(h.mobility * m == -(h.mobility * (-m))) by (nonlinear_arith);
    assert(h.parity * d == -(h.parity * (-d))) by (nonlinear_arith);
}

} // verus!
