//! A validated board coordinate.

use vstd::prelude::*;

verus! {

/// A position on the board, stored as a single index in `0..64`.
///
/// The inner value is private and every constructor is range-checked, so an
/// out-of-bounds `Square` cannot be built.
#[derive(Clone, Copy, PartialEq, Eq, Structural, Hash, Debug)]
pub struct Square(u8);

impl View for Square {
    type V = int;

    /// The flat index of the square.
    closed spec fn view(&self) -> int {
        self.0 as int
    }
}

impl Square {
    #[verifier::type_invariant]
    spec fn in_range(self) -> bool {
        self.0 < 64
    }

    /// Build a square from a `(row, col)` pair, or `None` if either is `>= 8`.
    pub fn new(row: u8, col: u8) -> (r: Option<Square>)
        ensures
            r is Some <==> (row < 8 && col < 8),
            r matches Some(sq) ==> sq@ == row * 8 + col,
    {
        if row < 8 && col < 8 {
            Some(Square(row * 8 + col))
        } else {
            None
        }
    }

    /// Build a square from a flat index, or `None` if `index >= 64`.
    pub fn from_index(index: usize) -> (r: Option<Square>)
        ensures
            r is Some <==> index < 64,
            r matches Some(sq) ==> sq@ == index,
    {
        if index < 64 {
            Some(Square(index as u8))
        } else {
            None
        }
    }

    /// The flat index in `0..64`. Always valid as a board array index.
    pub fn index(self) -> (r: usize)
        ensures
            r == self@,
            r < 64,
    {
        proof {
            use_type_invariant(&self);
        }
        self.0 as usize
    }

    /// Row (0 at the top), in `0..8`.
    pub fn row(self) -> (r: u8)
        ensures
            r == self@ / 8,
            r < 8,
    {
        proof {
            use_type_invariant(&self);
        }
        self.0 / 8
    }

    /// Column (0 at the left), in `0..8`.
    pub fn col(self) -> (r: u8)
        ensures
            r == self@ % 8,
            r < 8,
    {
        proof {
            use_type_invariant(&self);
        }
        self.0 % 8
    }

    /// Every square, in flat-index order.
    pub fn all() -> (r: Vec<Square>)
        ensures
            r@.len() == 64,
            forall|i: int| 0 <= i < 64 ==> (#[trigger] r@[i])@ == i,
    {
        let mut out: Vec<Square> = Vec::new();
        let mut i: u8 = 0;
        while i < 64
            invariant
                i <= 64,
                out@.len() == i,
                forall|j: int| 0 <= j < i ==> (#[trigger] out@[j])@ == j,
            decreases 64 - i,
        {
            out.push(Square(i));
            i = i + 1;
        }
        out
    }
}

/// A square is determined by its index: two squares with the same index are
/// the same square.
pub proof fn lemma_square_index_determines(a: Square, b: Square)
    ensures
        a@ == b@ <==> a == b,
{
}

/// A square built from a row and column gives them back.
pub proof fn lemma_square_coordinates(row: int, col: int)
    requires
        0 <= row < 8,
        0 <= col < 8,
    ensures
        (row * 8 + col) / 8 == row,
        (row * 8 + col) % 8 == col,
{
}

} // verus!
