//! The mathematical model of a board, and the rules of the game stated over it.
//!
//! Everything here is ghost: it says what the executable board computes,
//! and is what the contracts of [`crate::board::Board`] are written in.

use vstd::prelude::*;
use crate::address::{MoveVector, SquareAddress, BOARD_SIZE};
use crate::moves::{Move, ReversibleMove};
use crate::square::{Player, Square};

verus! {

/// Every address of the board, row by row, each row from column 0 upwards.
pub open spec fn all_squares() -> Seq<SquareAddress> {
    Seq::new(
        (BOARD_SIZE * BOARD_SIZE) as nat,
        |i: int| SquareAddress { row: (i / BOARD_SIZE as int) as usize, col: (i % BOARD_SIZE as int) as usize },
    )
}

/// The step by the given numbers of rows and columns.
pub open spec fn step(row_delta: int, col_delta: int) -> MoveVector {
    MoveVector { row_delta: row_delta as i8, col_delta: col_delta as i8 }
}

/// The eight steps of a king, in the order in which moves are generated.
pub open spec fn king_steps() -> Seq<MoveVector> {
    seq![
        step(0, 1),
        step(0, -1),
        step(1, 1),
        step(1, -1),
        step(1, 0),
        step(-1, 1),
        step(-1, 0),
        step(-1, -1),
    ]
}

/// Whether `to` is a square of the board next to `from`: at most one row and
/// one column away, and not `from` itself.
pub open spec fn is_king_step(from: SquareAddress, to: SquareAddress) -> bool {
    &&& to.is_valid()
    &&& to != from
    &&& -1 <= to.row - from.row <= 1
    &&& -1 <= to.col - from.col <= 1
}

/// The move from `from` by a given step, where the step stays on the board.
pub open spec fn step_move(from: SquareAddress) -> spec_fn(MoveVector) -> Option<Move> {
    |v: MoveVector|
        match from.add_vector(&v) {
            Some(to) => Some(Move { from: from, to: to }),
            None => None,
        }
}

/// The moves of a king that stands on `from`, in the order of `king_steps`.
pub open spec fn moves_from(from: SquareAddress) -> Seq<Move> {
    king_steps().filter_map(step_move(from))
}

/// `moves_from` as a function value.
pub open spec fn moves_from_each() -> spec_fn(SquareAddress) -> Seq<Move> {
    |from: SquareAddress| moves_from(from)
}

/// What a board holds: the occupant of each square, the side to move, and
/// the moves made and not yet taken back, oldest first.
pub struct Position {
    pub squares: Map<SquareAddress, Square>,
    pub player: Player,
    pub history: Seq<ReversibleMove>,
}

impl Position {
    /// The squares of a position are exactly those of the board.
    pub open spec fn wf(self) -> bool {
        forall|sa: SquareAddress| self.squares.dom().contains(sa) <==> sa.is_valid()
    }

    /// The position at the start: nobody on the board, White to move, nothing
    /// to take back.
    pub open spec fn initial() -> Position {
        Position {
            squares: Map::new(|sa: SquareAddress| sa.is_valid(), |sa: SquareAddress| Square::Empty),
            player: Player::White,
            history: Seq::empty(),
        }
    }

    /// The position with `s` put on square `sa`.
    pub open spec fn place(self, sa: SquareAddress, s: Square) -> Position {
        Position { squares: self.squares.insert(sa, s), player: self.player, history: self.history }
    }

    /// The position with `player` to move.
    pub open spec fn with_player(self, player: Player) -> Position {
        Position { squares: self.squares, player: player, history: self.history }
    }

    /// The position after the turn has passed `n` times with nothing moved.
    pub open spec fn after_turns(self, n: nat) -> Position {
        self.with_player(if n % 2 == 0 { self.player } else { self.player.next_player() })
    }

    /// The position after move `m`: the occupant of `m.from` stands on
    /// `m.to`, `m.from` is empty, what stood on `m.to` is recorded, and the
    /// other side is to move.
    pub open spec fn make(self, m: Move) -> Position {
        Position {
            squares: self.squares.insert(m.to, self.squares[m.from]).insert(m.from, Square::Empty),
            player: self.player.next_player(),
            history: self.history.push(ReversibleMove { mv: m, org: self.squares[m.to] }),
        }
    }

    /// The position with the last move taken back: the piece stands on its
    /// square of departure again, and the destination holds what it held.
    /// The side to move stays as it is.
    pub open spec fn unmake(self) -> Position
        recommends
            self.history.len() > 0,
    {
        let rm = self.history.last();
        Position {
            squares: self.squares.insert(rm.mv.from, self.squares[rm.mv.to]).insert(rm.mv.to, rm.org),
            player: self.player,
            history: self.history.drop_last(),
        }
    }

    /// Tells the squares with a piece of the side to move from the others.
    pub open spec fn owned(self) -> spec_fn(SquareAddress) -> bool {
        |sa: SquareAddress| self.squares[sa].is_player(self.player)
    }

    /// The squares that hold a piece of the side to move, row by row.
    pub open spec fn from_squares(self) -> Seq<SquareAddress> {
        all_squares().filter(self.owned())
    }

    /// Whether `m` takes a piece of the side to move one king's step
    /// further, whatever stands on the destination.
    pub open spec fn is_pseudo_move(self, m: Move) -> bool {
        &&& m.from.is_valid()
        &&& self.squares[m.from].is_player(self.player)
        &&& is_king_step(m.from, m.to)
    }

    /// All pseudo-moves in the order of generation: by square of departure,
    /// row by row, and for each of them in the order of `king_steps`.
    pub open spec fn pseudo_moves(self) -> Seq<Move> {
        self.from_squares().flat_map(moves_from_each())
    }

    /// Whether, once `m` is made, a piece of the side then to move stands one
    /// step from a king.
    pub open spec fn moves_into_check(self, m: Move) -> bool {
        let after = self.make(m);
        exists|reply: Move| #[trigger] after.is_pseudo_move(reply) && after.squares[reply.to].is_king()
    }

    /// Those of `candidates` that survive the check filter when they are
    /// tried one after the other. Each trial passes the turn, so the
    /// candidate at index `i` is tried with the turn passed `i` times.
    pub open spec fn safe_moves(self, candidates: Seq<Move>) -> Seq<Move>
        decreases candidates.len(),
    {
        if candidates.len() == 0 {
            Seq::empty()
        } else {
            let earlier = self.safe_moves(candidates.drop_last());
            let tried = self.after_turns((candidates.len() - 1) as nat);
            if tried.moves_into_check(candidates.last()) {
                earlier
            } else {
                earlier.push(candidates.last())
            }
        }
    }

    /// The pseudo-moves that survive the check filter.
    pub open spec fn legal_moves(self) -> Seq<Move> {
        self.safe_moves(self.pseudo_moves())
    }

    /// What is kept of `candidates`: all of them, or with `check` set those
    /// that survive the check filter.
    pub open spec fn kept_moves(self, check: bool, candidates: Seq<Move>) -> Seq<Move> {
        if check {
            self.safe_moves(candidates)
        } else {
            candidates
        }
    }

    /// The position once `n` candidates have been looked at: with `check`
    /// set each of them was tried, which passed the turn.
    pub open spec fn after_trials(self, check: bool, n: nat) -> Position {
        if check {
            self.after_turns(n)
        } else {
            self
        }
    }

    /// The moves of the side to move: the pseudo-moves, or with `check` set
    /// the legal moves.
    pub open spec fn moves(self, check: bool) -> Seq<Move> {
        self.kept_moves(check, self.pseudo_moves())
    }
}

} // verus!
