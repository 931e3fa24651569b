//! The board and the rules of Reversi, executable.

use vstd::prelude::*;

use crate::player::{other, Cell, Player};
use crate::rules::{
    count, count_upto, dir_col, dir_flips, dir_row, flips, flips_upto, legal, lemma_flips_valid, lemma_moves, moves, moves_upto, opening,
    ray, set_all, BoardView, Outcome,
};
use crate::square::Square;

verus! {

/// The indices of a sequence of squares.
pub open spec fn square_indices(s: Seq<Square>) -> Seq<int> {
    s.map_values(|q: Square| q@)
}

/// A sequence of `usize` read as integers.
pub open spec fn ints(s: Seq<usize>) -> Seq<int> {
    s.map_values(|x: usize| x as int)
}

/// A board with no disc on it.
pub open spec fn empty_cells() -> Seq<Cell> {
    Seq::new(64, |i: int| Cell::Empty)
}

/// An 8x8 Reversi position: what sits on every square, plus whose turn it is.
///
/// [`apply`](Board::apply) and [`pass`](Board::pass) return a new board rather
/// than mutating in place, which keeps them convenient for search.
#[derive(Clone, Copy, PartialEq, Eq, Debug)]
pub struct Board {
    cells: [Cell; 64],
    to_move: Player,
}

impl View for Board {
    type V = BoardView;

    closed spec fn view(&self) -> BoardView {
        BoardView { cells: self.cells@, to_move: self.to_move }
    }
}

/// The model of any board has one cell per square.
pub proof fn lemma_board_wf(b: Board)
    ensures
        b@.wf(),
{
    assert(b.cells@.len() == 64);
}

/// The step of the `d`-th direction.
fn direction(d: usize) -> (r: (i8, i8))
    requires
        d < 8,
    ensures
        r.0 == dir_row(d as int),
        r.1 == dir_col(d as int),
{
    match d {
        0 => (-1, -1),
        1 => (-1, 0),
        2 => (-1, 1),
        3 => (0, -1),
        4 => (0, 1),
        5 => (1, -1),
        6 => (1, 0),
        _ => (1, 1),
    }
}

/// `line + s` when the walk captured `s`, else nothing.
spec fn prepend(line: Seq<int>, o: Option<Seq<int>>) -> Option<Seq<int>> {
    match o {
        Some(s) => Some(line + s),
        None => None,
    }
}

impl Board {
    /// The standard Reversi opening: four discs in the centre, Black to move.
    pub fn new() -> (r: Board)
        ensures
            r@ == opening(),
    {
        let mut cells = [Cell::Empty; 64];
        cells[27] = Cell::Disc(Player::White);
        cells[28] = Cell::Disc(Player::Black);
        cells[35] = Cell::Disc(Player::Black);
        cells[36] = Cell::Disc(Player::White);
        let r = Board { cells, to_move: Player::Black };
        assert(r@.cells =~= opening().cells);
        r
    }

    /// Build an arbitrary position from explicit disc placements. If a square
    /// is listed under both colours, white wins (it is written last).
    pub fn from_discs(black: &[Square], white: &[Square], to_move: Player) -> (r: Board)
        ensures
            r@ == (BoardView {
                cells: set_all(
                    set_all(empty_cells(), square_indices(black@), Cell::Disc(Player::Black)),
                    square_indices(white@),
                    Cell::Disc(Player::White),
                ),
                to_move,
            }),
    {
        let mut cells = [Cell::Empty; 64];
        assert(cells@ =~= set_all(empty_cells(), square_indices(black@).take(0), Cell::Disc(Player::Black)));
        let mut k: usize = 0;
        while k < black.len()
            invariant
                k <= black@.len(),
                cells@ == set_all(empty_cells(), square_indices(black@).take(k as int), Cell::Disc(Player::Black)),
            decreases black@.len() - k,
        {
            let i = black[k].index();
            cells[i] = Cell::Disc(Player::Black);
            let ghost t = square_indices(black@).take(k + 1);
            assert(t.drop_last() =~= square_indices(black@).take(k as int));
            k = k + 1;
        }
        assert(square_indices(black@).take(black@.len() as int) =~= square_indices(black@));
        let ghost base = cells@;
        assert(cells@ =~= set_all(base, square_indices(white@).take(0), Cell::Disc(Player::White)));
        let mut k: usize = 0;
        while k < white.len()
            invariant
                k <= white@.len(),
                cells@ == set_all(base, square_indices(white@).take(k as int), Cell::Disc(Player::White)),
            decreases white@.len() - k,
        {
            let i = white[k].index();
            cells[i] = Cell::Disc(Player::White);
            let ghost t = square_indices(white@).take(k + 1);
            assert(t.drop_last() =~= square_indices(white@).take(k as int));
            k = k + 1;
        }
        assert(square_indices(white@).take(white@.len() as int) =~= square_indices(white@));
        Board { cells, to_move }
    }

    /// Whose turn it is.
    pub fn to_move(&self) -> (r: Player)
        ensures
            r == self@.to_move,
    {
        self.to_move
    }

    /// The contents of a square.
    pub fn cell(&self, sq: Square) -> (r: Cell)
        ensures
            r == self@.cells[sq@],
    {
        self.cells[sq.index()]
    }

    /// How many cells hold `x`.
    fn count_cells(&self, x: Cell) -> (r: u32)
        ensures
            r == count(self@.cells, x),
    {
        let mut n: u32 = 0;
        let mut i: usize = 0;
        while i < 64
            invariant
                i <= 64,
                n == count_upto(self.cells@, x, i as nat),
                n <= i,
            decreases 64 - i,
        {
            if self.cells[i] == x {
                n = n + 1;
            }
            i = i + 1;
        }
        n
    }

    /// Number of discs the given player has on the board.
    pub fn count(&self, player: Player) -> (r: u32)
        ensures
            r == self@.discs(player),
    {
        self.count_cells(Cell::Disc(player))
    }

    /// Number of empty squares remaining.
    pub fn empty_count(&self) -> (r: u32)
        ensures
            r == self@.empties(),
    {
        self.count_cells(Cell::Empty)
    }

    /// Is the given square a legal move for the side to move?
    pub fn is_legal(&self, sq: Square) -> (r: bool)
        ensures
            r == legal(self@.cells, self@.to_move, sq@),
    {
        let f = self.flips_at(sq.row() as i8, sq.col() as i8, self.to_move);
        f.len() != 0
    }

    /// All legal moves for the side to move, in flat-index order.
    pub fn legal_moves(&self) -> (r: Vec<Square>)
        ensures
            square_indices(r@) == self@.moves(),
    {
        self.moves_for(self.to_move)
    }

    /// How many legal moves `player` has in this position.
    pub fn mobility(&self, player: Player) -> (r: u32)
        ensures
            r == moves(self@.cells, player).len(),
    {
        let m = self.moves_for(player);
        proof {
            lemma_moves(self@.cells, player);
        }
        m.len() as u32
    }

    /// Play `sq` for the side to move, returning the resulting position, or
    /// `None` if `sq` is not a legal move (occupied, or flips nothing). The turn
    /// passes to the opponent.
    pub fn apply(&self, sq: Square) -> (r: Option<Board>)
        ensures
            r is Some <==> legal(self@.cells, self@.to_move, sq@),
            r matches Some(b) ==> b@ == self@.after_move(sq@),
    {
        let captured = self.flips_at(sq.row() as i8, sq.col() as i8, self.to_move);
        if captured.len() == 0 {
            return None;
        }
        let ghost fl = flips(self@.cells, self@.to_move, sq@ / 8, sq@ % 8);
        proof {
            lemma_board_wf(*self);
            lemma_flips_valid(self@.cells, self@.to_move, sq@);
        }
        let mut next = *self;
        next.cells[sq.index()] = Cell::Disc(self.to_move);
        let ghost c0 = next.cells@;
        assert(c0 == self@.cells.update(sq@, Cell::Disc(self@.to_move)));
        assert(ints(captured@) == fl);
        assert(next.cells@ =~= set_all(c0, fl.take(0), Cell::Disc(self@.to_move)));
        let mut k: usize = 0;
        while k < captured.len()
            invariant
                k <= captured@.len(),
                ints(captured@) == fl,
                fl.len() == captured@.len(),
                forall|j: int| 0 <= j < fl.len() ==> 0 <= #[trigger] fl[j] < 64,
                next.cells@ == set_all(c0, fl.take(k as int), Cell::Disc(self@.to_move)),
                next.to_move == self.to_move,
            decreases captured@.len() - k,
        {
            let i = captured[k];
            assert(fl[k as int] == i as int);
            next.cells[i] = Cell::Disc(self.to_move);
            assert(fl.take(k + 1).drop_last() =~= fl.take(k as int));
            k = k + 1;
        }
        assert(fl.take(fl.len() as int) =~= fl);
        next.to_move = self.to_move.opponent();
        Some(next)
    }

    /// Hand the turn to the opponent without placing a disc.
    pub fn pass(&self) -> (r: Board)
        ensures
            r@ == self@.after_pass(),
    {
        let mut next = *self;
        next.to_move = self.to_move.opponent();
        next
    }

    /// True when the side to move has no legal move but the opponent does, so a
    /// pass is required to continue.
    pub fn must_pass(&self) -> (r: bool)
        ensures
            r == self@.must_pass(),
    {
        self.moves_for(self.to_move).len() == 0 && self.moves_for(self.to_move.opponent()).len() != 0
    }

    /// True when neither player can move: the game is over.
    pub fn is_terminal(&self) -> (r: bool)
        ensures
            r == self@.is_terminal(),
    {
        self.moves_for(self.to_move).len() == 0 && self.moves_for(self.to_move.opponent()).len() == 0
    }

    /// The game result, or `None` if the game is not over yet.
    pub fn outcome(&self) -> (r: Option<Outcome>)
        ensures
            r == self@.outcome(),
    {
        if !self.is_terminal() {
            return None;
        }
        let black = self.count(Player::Black);
        let white = self.count(Player::White);
        if black > white {
            Some(Outcome::Win(Player::Black))
        } else if black < white {
            Some(Outcome::Win(Player::White))
        } else {
            Some(Outcome::Draw)
        }
    }

    /// Contents of `(row, col)`.
    fn cell_at(&self, row: usize, col: usize) -> (r: Cell)
        requires
            row < 8,
            col < 8,
        ensures
            r == self@.cells[row * 8 + col],
    {
        self.cells[row * 8 + col]
    }

    /// Every legal move for `player`, whoever is nominally to move.
    fn moves_for(&self, player: Player) -> (r: Vec<Square>)
        ensures
            square_indices(r@) == moves(self@.cells, player),
    {
        let mut out: Vec<Square> = Vec::new();
        let mut i: usize = 0;
        while i < 64
            invariant
                i <= 64,
                square_indices(out@) == moves_upto(self@.cells, player, i as nat),
            decreases 64 - i,
        {
            let sq = Square::from_index(i).unwrap();
            let f = self.flips_at(sq.row() as i8, sq.col() as i8, player);
            if f.len() != 0 {
                out.push(sq);
                assert(square_indices(out@) =~= moves_upto(self@.cells, player, i as nat).push(i as int));
            }
            i = i + 1;
        }
        out
    }

    /// Indices of the discs that `player` would flip by playing at
    /// `(row, col)`; empty if the square is occupied or the move flips nothing.
    fn flips_at(&self, row: i8, col: i8, player: Player) -> (r: Vec<usize>)
        requires
            0 <= row < 8,
            0 <= col < 8,
        ensures
            ints(r@) == flips(self@.cells, player, row as int, col as int),
    {
        let mut out: Vec<usize> = Vec::new();
        if self.cell_at(row as usize, col as usize) != Cell::Empty {
            assert(ints(out@) =~= Seq::<int>::empty());
            return out;
        }
        assert(ints(out@) =~= flips_upto(self@.cells, player, row as int, col as int, 0));
        let mut d: usize = 0;
        while d < 8
            invariant
                d <= 8,
                0 <= row < 8,
                0 <= col < 8,
                ints(out@) == flips_upto(self@.cells, player, row as int, col as int, d as nat),
            decreases 8 - d,
        {
            let (d_row, d_col) = direction(d);
            let ghost start = ray(
                self@.cells,
                player,
                row + d_row,
                col + d_col,
                d_row as int,
                d_col as int,
                7,
            );
            let ghost before = ints(out@);
            let mut line: Vec<usize> = Vec::new();
            let mut r: i8 = row + d_row;
            let mut c: i8 = col + d_col;
            let ghost mut k: int = 1;
            assert(ints(line@) + Seq::<int>::empty() =~= Seq::<int>::empty());
            assert(prepend(ints(line@), start) =~= start) by {
                match start {
                    Some(s) => {
                        assert(ints(line@) + s =~= s);
                    },
                    None => {},
                }
            }
            let mut captured = false;
            while 0 <= r && r < 8 && 0 <= c && c < 8
                invariant_except_break
                    1 <= k <= 8,
                    d_row == 1 ==> r == row + k,
                    d_row == -1 ==> r == row - k,
                    d_row == 0 ==> r == row,
                    d_col == 1 ==> c == col + k,
                    d_col == -1 ==> c == col - k,
                    d_col == 0 ==> c == col,
                    d_row != 0 || d_col != 0,
                    -1 <= d_row <= 1,
                    -1 <= d_col <= 1,
                    0 <= row < 8,
                    0 <= col < 8,
                    !captured,
                    ints(out@) == before,
                    start == prepend(
                        ints(line@),
                        ray(self@.cells, player, r as int, c as int, d_row as int, d_col as int, (8 - k) as nat),
                    ),
                ensures
                    captured ==> start == Some(ints(line@)),
                    !captured ==> start is None,
                    ints(out@) == before,
                decreases 8 - k,
            {
                let ghost fuel = (8 - k) as nat;
                match self.cell_at(r as usize, c as usize) {
                    Cell::Empty => {
                        break;
                    },
                    Cell::Disc(p) => {
                        if p == player {
                            assert(ints(line@) + Seq::<int>::empty() =~= ints(line@));
                            captured = true;
                            break;
                        }
                        let ghost old_line = ints(line@);
                        let idx = r as usize * 8 + c as usize;
                        line.push(idx);
                        assert(ints(line@) =~= old_line.push(idx as int));
                        let ghost rest = ray(
                            self@.cells,
                            player,
                            r + d_row,
                            c + d_col,
                            d_row as int,
                            d_col as int,
                            (fuel - 1) as nat,
                        );
                        proof {
                            match rest {
                                Some(s) => {
                                    assert(old_line + (seq![idx as int] + s) =~= old_line.push(idx as int) + s);
                                },
                                None => {},
                            }
                        }
                    },
                }
                r = r + d_row;
                c = c + d_col;
                proof {
                    k = k + 1;
                }
            }
            if captured {
                let ghost old = ints(out@);
                let ghost ln = ints(line@);
                out.append(&mut line);
                assert(ints(out@) =~= old + ln);
            }
            assert(dir_flips(self@.cells, player, row as int, col as int, d as int) == (match start {
                Some(s) => s,
                None => Seq::<int>::empty(),
            }));
            assert(ints(out@) =~= flips_upto(self@.cells, player, row as int, col as int, (d + 1) as nat));
            d = d + 1;
        }
        out
    }
}

impl Default for Board {
    fn default() -> (r: Board)
        ensures
            r@ == opening(),
    {
        Board::new()
    }
}

} // verus!
