//! Coordinates on the board and the steps between them.

use vstd::prelude::*;

verus! {

/// A row or column number.
pub type BoardIndex = usize;

/// A signed distance along a row or a column.
pub type Vector = i8;

/// The board has this many rows and as many columns.
pub const BOARD_SIZE: BoardIndex = 8;

/// A row and a column. Nothing forces the two onto the board: an address is
/// tested with `is_valid` where that matters.
#[derive(Eq, Hash, Clone, Copy, PartialEq, Debug, Structural)]
pub struct SquareAddress {
    pub row: BoardIndex,
    pub col: BoardIndex,
}

/// A displacement by whole rows and columns.
#[derive(Eq, Clone, Copy, PartialEq, Debug, Structural)]
pub struct MoveVector {
    pub row_delta: Vector,
    pub col_delta: Vector,
}

impl MoveVector {
    /// The displacement by `row_delta` rows and `col_delta` columns.
    pub fn new(row_delta: Vector, col_delta: Vector) -> (v: Self)
        ensures
            v.row_delta == row_delta,
            v.col_delta == col_delta,
    {
        Self { row_delta: row_delta, col_delta: col_delta }
    }
}

impl SquareAddress {
    /// The address of the given row and column, which need not be on the
    /// board.
    pub fn new(row: BoardIndex, col: BoardIndex) -> (sa: Self)
        ensures
            sa.row == row,
            sa.col == col,
    {
        Self { row: row, col: col }
    }

    /// What `is_valid` returns.
    pub open spec fn spec_is_valid(&self) -> bool {
        self.row < BOARD_SIZE && self.col < BOARD_SIZE
    }

    /// Whether the address lies on the board.
    #[verifier::when_used_as_spec(spec_is_valid)]
    pub fn is_valid(&self) -> (b: bool)
        ensures
            b == self.spec_is_valid(),
    {
        self.row < BOARD_SIZE && self.col < BOARD_SIZE
    }

    /// What `is_valid_index` returns.
    pub open spec fn spec_is_valid_index(i: Vector) -> bool {
        0 <= i < BOARD_SIZE
    }

    /// Whether a signed row or column number lies on the board.
    #[verifier::when_used_as_spec(spec_is_valid_index)]
    pub fn is_valid_index(i: Vector) -> (b: bool)
        ensures
            b == Self::spec_is_valid_index(i),
    {
        i >= 0 && i < BOARD_SIZE as Vector
    }

    /// What `add_vector` returns.
    pub open spec fn spec_add_vector(&self, v: &MoveVector) -> Option<SquareAddress> {
        let row = self.row + v.row_delta;
        let col = self.col + v.col_delta;
        if 0 <= row < BOARD_SIZE && 0 <= col < BOARD_SIZE {
            Some(SquareAddress { row: row as usize, col: col as usize })
        } else {
            None
        }
    }

    /// The address reached from here by `v`, unless that leaves the board.
    ///
    /// The sums are taken as signed numbers, so a step below row or column 0
    /// is seen as such and gives `None`.
    #[verifier::when_used_as_spec(spec_add_vector)]
    pub fn add_vector(&self, v: &MoveVector) -> (target: Option<SquareAddress>)
        ensures
            target == self.spec_add_vector(v),
    {
        let row: i128 = self.row as i128 + v.row_delta as i128;
        let col: i128 = self.col as i128 + v.col_delta as i128;
        if 0 <= row && row < BOARD_SIZE as i128 && 0 <= col && col < BOARD_SIZE as i128 {
            Some(SquareAddress { row: row as BoardIndex, col: col as BoardIndex })
        } else {
            None
        }
    }
}

} // verus!
