//! The rules of Reversi as mathematics: the board model and what a move does.
//!
//! A board is modelled as a sequence of 64 cells (row-major) plus the side to
//! move. Everything the executable [`Board`](crate::board::Board) computes is
//! stated against the functions in this module.

use vstd::prelude::*;

use crate::player::{other, Cell, Player};

verus! {

/// The abstract state of a board: 64 cells in row-major order and the side to
/// move.
pub struct BoardView {
    pub cells: Seq<Cell>,
    pub to_move: Player,
}

/// The result of a finished game.
#[derive(Clone, Copy, PartialEq, Eq, Structural, Debug)]
pub enum Outcome {
    Win(Player),
    Draw,
}

/// `(r, c)` lies on the board.
pub open spec fn on_board(r: int, c: int) -> bool {
    0 <= r < 8 && 0 <= c < 8
}

/// Row step of the `d`-th direction, in the fixed order
/// `(-1,-1) (-1,0) (-1,1) (0,-1) (0,1) (1,-1) (1,0) (1,1)`.
pub open spec fn dir_row(d: int) -> int {
    if d < 3 {
        -1
    } else if d < 5 {
        0
    } else {
        1
    }
}

/// Column step of the `d`-th direction (same order as [`dir_row`]).
pub open spec fn dir_col(d: int) -> int {
    if d == 0 || d == 3 || d == 5 {
        -1
    } else if d == 1 || d == 6 {
        0
    } else {
        1
    }
}

/// Walking from `(r, c)` in steps of `(dr, dc)`: the indices of the
/// consecutive opponent discs met before `p`'s own disc, or `None` when the
/// walk hits an empty square or the edge first (nothing is captured).
/// `fuel` bounds the walk; seven steps always reach the edge.
pub open spec fn ray(cells: Seq<Cell>, p: Player, r: int, c: int, dr: int, dc: int, fuel: nat) -> Option<Seq<int>>
    decreases fuel,
{
    if fuel == 0 || !on_board(r, c) {
        None
    } else {
        match cells[r * 8 + c] {
            Cell::Empty => None,
            Cell::Disc(q) => if q == p {
                Some(Seq::empty())
            } else {
                match ray(cells, p, r + dr, c + dc, dr, dc, (fuel - 1) as nat) {
                    Some(s) => Some(seq![r * 8 + c] + s),
                    None => None,
                }
            },
        }
    }
}

/// The discs `p` captures in direction `d` by playing at `(r, c)`.
pub open spec fn dir_flips(cells: Seq<Cell>, p: Player, r: int, c: int, d: int) -> Seq<int> {
    match ray(cells, p, r + dir_row(d), c + dir_col(d), dir_row(d), dir_col(d), 7) {
        Some(s) => s,
        None => Seq::empty(),
    }
}

/// The captures of the first `n` directions, concatenated in direction order.
pub open spec fn flips_upto(cells: Seq<Cell>, p: Player, r: int, c: int, n: nat) -> Seq<int>
    decreases n,
{
    if n == 0 {
        Seq::empty()
    } else {
        flips_upto(cells, p, r, c, (n - 1) as nat) + dir_flips(cells, p, r, c, n - 1)
    }
}

/// Every disc `p` would flip by playing at `(r, c)`: empty when the square is
/// occupied or the move captures nothing.
pub open spec fn flips(cells: Seq<Cell>, p: Player, r: int, c: int) -> Seq<int> {
    if cells[r * 8 + c] != Cell::Empty {
        Seq::empty()
    } else {
        flips_upto(cells, p, r, c, 8)
    }
}

/// Square `i` is a legal move for `p`.
pub open spec fn legal(cells: Seq<Cell>, p: Player, i: int) -> bool {
    flips(cells, p, i / 8, i % 8).len() > 0
}

/// The legal moves of `p` among the first `n` squares, in index order.
pub open spec fn moves_upto(cells: Seq<Cell>, p: Player, n: nat) -> Seq<int>
    decreases n,
{
    if n == 0 {
        Seq::empty()
    } else if legal(cells, p, n - 1) {
        moves_upto(cells, p, (n - 1) as nat).push(n - 1)
    } else {
        moves_upto(cells, p, (n - 1) as nat)
    }
}

/// All legal moves of `p`, in index order.
pub open spec fn moves(cells: Seq<Cell>, p: Player) -> Seq<int> {
    moves_upto(cells, p, 64)
}

/// How many of the first `n` cells hold `x`.
pub open spec fn count_upto(cells: Seq<Cell>, x: Cell, n: nat) -> nat
    decreases n,
{
    if n == 0 {
        0
    } else {
        count_upto(cells, x, (n - 1) as nat) + (if cells[n - 1] == x { 1nat } else { 0nat })
    }
}

/// How many cells hold `x`.
pub open spec fn count(cells: Seq<Cell>, x: Cell) -> nat {
    count_upto(cells, x, 64)
}

/// Write `v` into each index of `idxs`, in order.
pub open spec fn set_all(cells: Seq<Cell>, idxs: Seq<int>, v: Cell) -> Seq<Cell>
    decreases idxs.len(),
{
    if idxs.len() == 0 {
        cells
    } else {
        set_all(cells, idxs.drop_last(), v).update(idxs.last(), v)
    }
}

impl BoardView {
    /// The model has exactly one cell per square.
    pub open spec fn wf(self) -> bool {
        self.cells.len() == 64
    }

    /// Legal moves of the side to move.
    pub open spec fn moves(self) -> Seq<int> {
        moves(self.cells, self.to_move)
    }

    /// Legal moves of the side not to move.
    pub open spec fn reply_moves(self) -> Seq<int> {
        moves(self.cells, other(self.to_move))
    }

    /// Neither side can move: the game is over.
    pub open spec fn is_terminal(self) -> bool {
        self.moves().len() == 0 && self.reply_moves().len() == 0
    }

    /// The side to move has no move but the opponent has one.
    pub open spec fn must_pass(self) -> bool {
        self.moves().len() == 0 && self.reply_moves().len() > 0
    }

    /// The position after the side to move plays at square `i`.
    pub open spec fn after_move(self, i: int) -> BoardView {
        BoardView {
            cells: set_all(
                self.cells.update(i, Cell::Disc(self.to_move)),
                flips(self.cells, self.to_move, i / 8, i % 8),
                Cell::Disc(self.to_move),
            ),
            to_move: other(self.to_move),
        }
    }

    /// The position after the side to move passes.
    pub open spec fn after_pass(self) -> BoardView {
        BoardView { cells: self.cells, to_move: other(self.to_move) }
    }

    /// Number of discs of `p`.
    pub open spec fn discs(self, p: Player) -> nat {
        count(self.cells, Cell::Disc(p))
    }

    /// Number of empty squares.
    pub open spec fn empties(self) -> nat {
        count(self.cells, Cell::Empty)
    }

    /// The game result, or `None` while the game goes on.
    pub open spec fn outcome(self) -> Option<Outcome> {
        if !self.is_terminal() {
            None
        } else if self.discs(Player::Black) > self.discs(Player::White) {
            Some(Outcome::Win(Player::Black))
        } else if self.discs(Player::Black) < self.discs(Player::White) {
            Some(Outcome::Win(Player::White))
        } else {
            Some(Outcome::Draw)
        }
    }
}

/// A side with no move in a game that is not over must pass: its opponent can
/// move.
pub proof fn lemma_no_move_forces_pass(b: BoardView)
    requires
        !b.is_terminal(),
        b.moves().len() == 0,
    ensures
        b.must_pass(),
{
}

/// A game has a result exactly when it is over.
pub proof fn lemma_outcome_iff_terminal(b: BoardView)
    ensures
        b.outcome() is Some <==> b.is_terminal(),
{
}

/// Passing twice gives the turn back: the position is unchanged.
pub proof fn lemma_pass_twice(b: BoardView)
    ensures
        b.after_pass().after_pass() == b,
{
    crate::player::lemma_opponent_involution(b.to_move);
}

/// A pass hands the turn over without touching the discs, so the game is over
/// after it exactly when it was over before.
pub proof fn lemma_pass_keeps_terminal(b: BoardView)
    ensures
        b.after_pass().is_terminal() == b.is_terminal(),
        b.after_pass().discs(Player::Black) == b.discs(Player::Black),
        b.after_pass().discs(Player::White) == b.discs(Player::White),
{
    crate::player::lemma_opponent_involution(b.to_move);
}

/// A step to one of the eight neighbouring squares.
pub open spec fn neighbour_step(dr: int, dc: int) -> bool {
    -1 <= dr <= 1 && -1 <= dc <= 1 && !(dr == 0 && dc == 0)
}

/// The eight directions are the eight neighbouring steps, each exactly once:
/// every step `(dr, dc)` with both parts in `-1..=1`, not both zero, is the
/// step of exactly one direction `d` in `0..8`, and no direction stands still.
pub proof fn lemma_directions_are_the_neighbours()
    ensures
        forall|d: int| 0 <= d < 8 ==> -1 <= #[trigger] dir_row(d) <= 1 && -1 <= dir_col(d) <= 1 && !(dir_row(d)
            == 0 && dir_col(d) == 0),
        forall|d: int, e: int|
            0 <= d < e < 8 ==> !(#[trigger] dir_row(d) == #[trigger] dir_row(e) && dir_col(d) == dir_col(e)),
        forall|dr: int, dc: int|
            #[trigger] neighbour_step(dr, dc) ==> exists|d: int| 0 <= d < 8 && #[trigger] dir_row(d) == dr && dir_col(d) == dc,
{
    assert forall|dr: int, dc: int| #[trigger] neighbour_step(dr, dc) implies exists|d: int|
        0 <= d < 8 && #[trigger] dir_row(d) == dr && dir_col(d) == dc by {
        let d: int = if dr == -1 {
            dc + 1
        } else if dr == 0 {
            if dc == -1 {
                3
            } else {
                4
            }
        } else {
            dc + 6
        };
        assert(dir_row(d) == dr && dir_col(d) == dc);
    }
}

/// The captures of the first `n` directions include those of each of them.
proof fn lemma_flips_upto_includes(cells: Seq<Cell>, p: Player, r: int, c: int, n: nat, d: int)
    requires
        0 <= d < n,
    ensures
        forall|k: int|
            0 <= k < dir_flips(cells, p, r, c, d).len() ==> flips_upto(cells, p, r, c, n).contains(
                #[trigger] dir_flips(cells, p, r, c, d)[k],
            ),
    decreases n,
{
    let a = flips_upto(cells, p, r, c, (n - 1) as nat);
    let df = dir_flips(cells, p, r, c, n - 1);
    assert(flips_upto(cells, p, r, c, n) == a + df);
    if d < n - 1 {
        lemma_flips_upto_includes(cells, p, r, c, (n - 1) as nat, d);
        assert forall|k: int| 0 <= k < dir_flips(cells, p, r, c, d).len() implies flips_upto(cells, p, r, c, n).contains(
            #[trigger] dir_flips(cells, p, r, c, d)[k],
        ) by {
            let x = dir_flips(cells, p, r, c, d)[k];
            let j = choose|j: int| 0 <= j < a.len() && a[j] == x;
            assert((a + df)[j] == x);
        }
    } else {
        assert forall|k: int| 0 <= k < dir_flips(cells, p, r, c, d).len() implies flips_upto(cells, p, r, c, n).contains(
            #[trigger] dir_flips(cells, p, r, c, d)[k],
        ) by {
            assert((a + df)[a.len() + k] == df[k]);
        }
    }
}

/// Playing on an empty square captures, in every one of the eight neighbouring
/// directions, the run of opponent discs that the mover's own disc closes.
pub proof fn lemma_flips_cover_every_direction(cells: Seq<Cell>, p: Player, r: int, c: int, dr: int, dc: int)
    requires
        on_board(r, c),
        cells[r * 8 + c] == Cell::Empty,
        neighbour_step(dr, dc),
    ensures
        ray(cells, p, r + dr, c + dc, dr, dc, 7) matches Some(s) ==> forall|k: int|
            0 <= k < s.len() ==> flips(cells, p, r, c).contains(#[trigger] s[k]),
{
    lemma_directions_are_the_neighbours();
    assert(neighbour_step(dr, dc));
    let d = choose|d: int| 0 <= d < 8 && #[trigger] dir_row(d) == dr && dir_col(d) == dc;
    assert(0 <= d < 8 && dir_row(d) == dr && dir_col(d) == dc);
    lemma_flips_upto_includes(cells, p, r, c, 8, d);
    assert(flips(cells, p, r, c) == flips_upto(cells, p, r, c, 8));
    if let Some(s) = ray(cells, p, r + dr, c + dc, dr, dc, 7) {
        assert(dir_flips(cells, p, r, c, d) == s);
        assert forall|k: int| 0 <= k < s.len() implies flips(cells, p, r, c).contains(#[trigger] s[k]) by {
            assert(dir_flips(cells, p, r, c, d)[k] == s[k]);
        }
    }
}

/// What a legal move does to the board: the played square and every square
/// it captures hold the mover's disc, every other square is unchanged, and
/// the turn passes to the opponent.
pub proof fn lemma_after_move_cells(b: BoardView, i: int)
    requires
        b.wf(),
        0 <= i < 64,
        legal(b.cells, b.to_move, i),
    ensures
        b.after_move(i).cells.len() == 64,
        b.after_move(i).to_move == other(b.to_move),
        b.after_move(i).cells[i] == Cell::Disc(b.to_move),
        forall|k: int|
            0 <= k < flips(b.cells, b.to_move, i / 8, i % 8).len() ==> b.after_move(i).cells[#[trigger] flips(
                b.cells,
                b.to_move,
                i / 8,
                i % 8,
            )[k]] == Cell::Disc(b.to_move),
        forall|j: int|
            0 <= j < 64 && j != i && !flips(b.cells, b.to_move, i / 8, i % 8).contains(j) ==> #[trigger] b.after_move(
                i,
            ).cells[j] == b.cells[j],
{
    let p = b.to_move;
    let fl = flips(b.cells, p, i / 8, i % 8);
    let c0 = b.cells.update(i, Cell::Disc(p));
    lemma_flips_valid(b.cells, p, i);
    assert(i / 8 * 8 + i % 8 == i);
    assert forall|k: int| 0 <= k < fl.len() implies 0 <= #[trigger] fl[k] < c0.len() by {}
    lemma_set_all_index(c0, fl, Cell::Disc(p), i);
    assert forall|k: int| 0 <= k < fl.len() implies b.after_move(i).cells[#[trigger] fl[k]] == Cell::Disc(p) by {
        lemma_set_all_index(c0, fl, Cell::Disc(p), fl[k]);
        assert(fl.contains(fl[k]));
    }
    assert forall|j: int| 0 <= j < 64 && j != i && !fl.contains(j) implies #[trigger] b.after_move(i).cells[j]
        == b.cells[j] by {
        lemma_set_all_index(c0, fl, Cell::Disc(p), j);
    }
}

/// The standard opening: four discs in the centre, Black to move.
pub open spec fn opening() -> BoardView {
    BoardView {
        cells: Seq::new(
            64,
            |i: int|
                if i == 27 || i == 36 {
                    Cell::Disc(Player::White)
                } else if i == 28 || i == 35 {
                    Cell::Disc(Player::Black)
                } else {
                    Cell::Empty
                },
        ),
        to_move: Player::Black,
    }
}

// ---------------------------------------------------------------------------
// Lemmas about the model.
// ---------------------------------------------------------------------------

/// What `set_all` leaves at each index.
pub proof fn lemma_set_all_index(cells: Seq<Cell>, idxs: Seq<int>, v: Cell, j: int)
    requires
        0 <= j < cells.len(),
        forall|k: int| 0 <= k < idxs.len() ==> 0 <= #[trigger] idxs[k] < cells.len(),
    ensures
        set_all(cells, idxs, v).len() == cells.len(),
        set_all(cells, idxs, v)[j] == (if idxs.contains(j) { v } else { cells[j] }),
    decreases idxs.len(),
{
    if idxs.len() > 0 {
        let init = idxs.drop_last();
        lemma_set_all_index(cells, init, v, j);
        if idxs.contains(j) && idxs.last() != j {
            let k = choose|k: int| 0 <= k < idxs.len() && idxs[k] == j;
            assert(init[k] == j);
        }
        if init.contains(j) {
            let k = choose|k: int| 0 <= k < init.len() && init[k] == j;
            assert(idxs[k] == j);
        }
        if idxs.last() == j {
            assert(idxs[idxs.len() - 1] == j);
        }
    }
}

/// Every index in a ray is on the board and holds an opponent disc.
pub proof fn lemma_ray_cells(cells: Seq<Cell>, p: Player, r: int, c: int, dr: int, dc: int, fuel: nat)
    requires
        cells.len() == 64,
    ensures
        ray(cells, p, r, c, dr, dc, fuel) matches Some(s) ==> forall|k: int|
            0 <= k < s.len() ==> 0 <= #[trigger] s[k] < 64 && cells[s[k]] == Cell::Disc(other(p)),
    decreases fuel,
{
    if fuel > 0 && on_board(r, c) {
        lemma_ray_cells(cells, p, r + dr, c + dc, dr, dc, (fuel - 1) as nat);
        match cells[r * 8 + c] {
            Cell::Disc(q) => {
                if q != p {
                    match ray(cells, p, r + dr, c + dc, dr, dc, (fuel - 1) as nat) {
                        Some(s) => {
                            let t = seq![r * 8 + c] + s;
                            assert forall|k: int| 0 <= k < t.len() implies 0 <= #[trigger] t[k] < 64
                                && cells[t[k]] == Cell::Disc(other(p)) by {
                                if k > 0 {
                                    assert(t[k] == s[k - 1]);
                                }
                            }
                        },
                        None => {},
                    }
                }
            },
            Cell::Empty => {},
        }
    }
}

/// Every flipped index is on the board and holds an opponent disc.
pub proof fn lemma_flips_cells(cells: Seq<Cell>, p: Player, r: int, c: int, n: nat)
    requires
        cells.len() == 64,
        n <= 8,
    ensures
        forall|k: int|
            0 <= k < flips_upto(cells, p, r, c, n).len() ==> 0 <= #[trigger] flips_upto(cells, p, r, c, n)[k]
                < 64 && cells[flips_upto(cells, p, r, c, n)[k]] == Cell::Disc(other(p)),
    decreases n,
{
    if n > 0 {
        lemma_flips_cells(cells, p, r, c, (n - 1) as nat);
        let d = n - 1;
        lemma_ray_cells(cells, p, r + dir_row(d), c + dir_col(d), dir_row(d), dir_col(d), 7);
        let a = flips_upto(cells, p, r, c, (n - 1) as nat);
        let b = dir_flips(cells, p, r, c, d);
        assert forall|k: int| 0 <= k < (a + b).len() implies 0 <= #[trigger] (a + b)[k] < 64 && cells[(a
            + b)[k]] == Cell::Disc(other(p)) by {
            if k >= a.len() {
                assert((a + b)[k] == b[k - a.len()]);
            } else {
                assert((a + b)[k] == a[k]);
            }
        }
    }
}

/// The same, for the full flip list of a move.
pub proof fn lemma_flips_valid(cells: Seq<Cell>, p: Player, i: int)
    requires
        cells.len() == 64,
        0 <= i < 64,
    ensures
        forall|k: int|
            0 <= k < flips(cells, p, i / 8, i % 8).len() ==> 0 <= #[trigger] flips(cells, p, i / 8, i % 8)[k]
                < 64 && cells[flips(cells, p, i / 8, i % 8)[k]] == Cell::Disc(other(p)),
{
    lemma_flips_cells(cells, p, i / 8, i % 8, 8);
}

/// Cell counts over a prefix never exceed the prefix, and the three kinds
/// partition it.
pub proof fn lemma_count_partition(cells: Seq<Cell>, n: nat)
    requires
        n <= cells.len(),
    ensures
        count_upto(cells, Cell::Disc(Player::Black), n) + count_upto(cells, Cell::Disc(Player::White), n)
            + count_upto(cells, Cell::Empty, n) == n,
    decreases n,
{
    if n > 0 {
        lemma_count_partition(cells, (n - 1) as nat);
        match cells[n - 1] {
            Cell::Empty => {},
            Cell::Disc(Player::Black) => {},
            Cell::Disc(Player::White) => {},
        }
    }
}

/// Writing one cell changes the count of `x` by what was removed and added.
pub proof fn lemma_count_update(cells: Seq<Cell>, x: Cell, j: int, v: Cell, n: nat)
    requires
        n <= cells.len(),
        0 <= j < cells.len(),
    ensures
        count_upto(cells.update(j, v), x, n) + (if j < n && cells[j] == x { 1int } else { 0int }) == count_upto(
            cells,
            x,
            n,
        ) + (if j < n && v == x { 1int } else { 0int }),
    decreases n,
{
    if n > 0 {
        lemma_count_update(cells, x, j, v, (n - 1) as nat);
    }
}

/// Writing discs over cells that already hold discs keeps the number of empty
/// squares and the total number of discs.
pub proof fn lemma_set_all_over_discs(cells: Seq<Cell>, idxs: Seq<int>, v: Player)
    requires
        cells.len() == 64,
        forall|k: int| 0 <= k < idxs.len() ==> 0 <= #[trigger] idxs[k] < 64 && cells[idxs[k]] != Cell::Empty,
    ensures
        set_all(cells, idxs, Cell::Disc(v)).len() == 64,
        count(set_all(cells, idxs, Cell::Disc(v)), Cell::Empty) == count(cells, Cell::Empty),
        count(set_all(cells, idxs, Cell::Disc(v)), Cell::Disc(Player::Black)) + count(
            set_all(cells, idxs, Cell::Disc(v)),
            Cell::Disc(Player::White),
        ) == count(cells, Cell::Disc(Player::Black)) + count(cells, Cell::Disc(Player::White)),
        count(set_all(cells, idxs, Cell::Disc(v)), Cell::Disc(v)) >= count(cells, Cell::Disc(v)),
    decreases idxs.len(),
{
    if idxs.len() > 0 {
        let init = idxs.drop_last();
        let j = idxs.last();
        assert forall|k: int| 0 <= k < init.len() implies 0 <= #[trigger] init[k] < 64 && cells[init[k]]
            != Cell::Empty by {
            assert(init[k] == idxs[k]);
        }
        lemma_set_all_over_discs(cells, init, v);
        let prev = set_all(cells, init, Cell::Disc(v));
        assert(idxs[idxs.len() - 1] == j);
        lemma_set_all_index(cells, init, Cell::Disc(v), j);
        assert(prev[j] != Cell::Empty);
        lemma_count_update(prev, Cell::Empty, j, Cell::Disc(v), 64);
        lemma_count_update(prev, Cell::Disc(Player::Black), j, Cell::Disc(v), 64);
        lemma_count_update(prev, Cell::Disc(Player::White), j, Cell::Disc(v), 64);
        lemma_count_update(prev, Cell::Disc(v), j, Cell::Disc(v), 64);
        match prev[j] {
            Cell::Disc(Player::Black) => {},
            Cell::Disc(Player::White) => {},
            Cell::Empty => {},
        }
    }
}

/// A legal move fills exactly one empty square: the number of empty squares
/// drops by one, the number of discs grows by one, and the mover gains discs.
pub proof fn lemma_after_move_counts(b: BoardView, i: int)
    requires
        b.wf(),
        0 <= i < 64,
        legal(b.cells, b.to_move, i),
    ensures
        b.after_move(i).wf(),
        b.after_move(i).empties() + 1 == b.empties(),
        b.after_move(i).discs(Player::Black) + b.after_move(i).discs(Player::White) == b.discs(Player::Black)
            + b.discs(Player::White) + 1,
        b.after_move(i).discs(b.to_move) > b.discs(b.to_move),
{
    let p = b.to_move;
    let fl = flips(b.cells, p, i / 8, i % 8);
    assert(b.cells[i / 8 * 8 + i % 8] == Cell::Empty);
    assert(i / 8 * 8 + i % 8 == i);
    let c0 = b.cells.update(i, Cell::Disc(p));
    lemma_flips_valid(b.cells, p, i);
    assert forall|k: int| 0 <= k < fl.len() implies 0 <= #[trigger] fl[k] < 64 && c0[fl[k]] != Cell::Empty by {
        assert(b.cells[fl[k]] == Cell::Disc(other(p)));
    }
    lemma_count_update(b.cells, Cell::Empty, i, Cell::Disc(p), 64);
    lemma_count_update(b.cells, Cell::Disc(Player::Black), i, Cell::Disc(p), 64);
    lemma_count_update(b.cells, Cell::Disc(Player::White), i, Cell::Disc(p), 64);
    lemma_count_update(b.cells, Cell::Disc(p), i, Cell::Disc(p), 64);
    lemma_set_all_over_discs(c0, fl, p);
    match p {
        Player::Black => {},
        Player::White => {},
    }
}

/// Disc and empty counts always partition the 64 squares.
pub proof fn lemma_counts_sum(b: BoardView)
    requires
        b.wf(),
    ensures
        b.discs(Player::Black) + b.discs(Player::White) + b.empties() == 64,
{
    lemma_count_partition(b.cells, 64);
}

/// The move list holds exactly the legal squares below `n`, in strictly
/// increasing order.
pub proof fn lemma_moves_upto(cells: Seq<Cell>, p: Player, n: nat)
    ensures
        moves_upto(cells, p, n).len() <= n,
        forall|k: int|
            0 <= k < moves_upto(cells, p, n).len() ==> 0 <= #[trigger] moves_upto(cells, p, n)[k] < n
                && legal(cells, p, moves_upto(cells, p, n)[k]),
        forall|k: int, l: int|
            0 <= k < l < moves_upto(cells, p, n).len() ==> #[trigger] moves_upto(cells, p, n)[k]
                < #[trigger] moves_upto(cells, p, n)[l],
        forall|i: int| 0 <= i < n && legal(cells, p, i) ==> #[trigger] moves_upto(cells, p, n).contains(i),
    decreases n,
{
    if n > 0 {
        lemma_moves_upto(cells, p, (n - 1) as nat);
        let prev = moves_upto(cells, p, (n - 1) as nat);
        if legal(cells, p, n - 1) {
            let cur = prev.push(n - 1);
            assert forall|i: int| 0 <= i < n && legal(cells, p, i) implies #[trigger] cur.contains(i) by {
                if i == n - 1 {
                    assert(cur[cur.len() - 1] == i);
                } else {
                    assert(prev.contains(i));
                    let k = choose|k: int| 0 <= k < prev.len() && prev[k] == i;
                    assert(cur[k] == i);
                }
            }
        }
    }
}

/// The legal moves of a player: every listed square is legal, every legal
/// square is listed, in increasing index order.
pub proof fn lemma_moves(cells: Seq<Cell>, p: Player)
    ensures
        moves(cells, p).len() <= 64,
        forall|k: int|
            0 <= k < moves(cells, p).len() ==> 0 <= #[trigger] moves(cells, p)[k] < 64 && legal(
                cells,
                p,
                moves(cells, p)[k],
            ),
        forall|k: int, l: int|
            0 <= k < l < moves(cells, p).len() ==> #[trigger] moves(cells, p)[k] < #[trigger] moves(cells, p)[l],
        forall|i: int| 0 <= i < 64 && legal(cells, p, i) ==> #[trigger] moves(cells, p).contains(i),
{
    lemma_moves_upto(cells, p, 64);
}

} // verus!
