//! Moves, and what it takes to undo one.

use vstd::prelude::*;
use crate::address::SquareAddress;
use crate::square::Square;

verus! {

/// A step of one piece from a square to another.
#[derive(Clone, Copy, Eq, Hash, PartialEq, Debug, Structural)]
pub struct Move {
    pub from: SquareAddress,
    pub to: SquareAddress,
}

/// A move that was made, with what stood on its destination before.
#[derive(Clone, Copy, Eq, PartialEq, Debug, Structural)]
pub struct ReversibleMove {
    pub mv: Move,
    pub org: Square,
}

impl Move {
    /// The move from `from` to `to`.
    pub fn new(from: SquareAddress, to: SquareAddress) -> (m: Self)
        ensures
            m.from == from,
            m.to == to,
    {
        Self { from: from, to: to }
    }
}

} // verus!
