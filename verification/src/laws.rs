//! What holds of every position: which moves are generated, that none is
//! generated twice, and that taking a move back undoes it.

use vstd::prelude::*;
use vstd::seq_lib::*;
use crate::address::{MoveVector, SquareAddress, BOARD_SIZE};
use crate::moves::{Move, ReversibleMove};
use crate::position::{all_squares, is_king_step, king_steps, moves_from, moves_from_each, step, step_move, Position};
use crate::sequences::{
    lemma_filter_holds,
    lemma_filter_map_holds,
    lemma_filter_map_no_duplicates,
    lemma_filter_no_duplicates,
    lemma_flat_map_holds,
    lemma_flat_map_no_duplicates,
    lemma_push_no_duplicates,
};

verus! {

/// The list of all squares holds every address of the board once, and
/// nothing else.
pub proof fn lemma_all_squares(sa: SquareAddress)
    ensures
        all_squares().contains(sa) <==> sa.is_valid(),
        all_squares().no_duplicates(),
{
    if sa.is_valid() {
        let i = sa.row * BOARD_SIZE + sa.col;
        assert(all_squares()[i] == sa);
    }
}

/// Where a step of the king stands in `king_steps`.
pub open spec fn step_index(row_delta: int, col_delta: int) -> int {
    if row_delta == 0 {
        if col_delta == 1 {
            0
        } else {
            1
        }
    } else if row_delta == 1 {
        if col_delta == 1 {
            2
        } else if col_delta == -1 {
            3
        } else {
            4
        }
    } else {
        if col_delta == 1 {
            5
        } else if col_delta == 0 {
            6
        } else {
            7
        }
    }
}

/// The steps of a king are the eight pairs of -1, 0 and 1 other than (0, 0),
/// each once.
pub proof fn lemma_king_steps(v: MoveVector)
    ensures
        king_steps().len() == 8,
        king_steps().no_duplicates(),
        king_steps().contains(v) <==> -1 <= v.row_delta <= 1 && -1 <= v.col_delta <= 1 && !(
        v.row_delta == 0 && v.col_delta == 0),
{
    if -1 <= v.row_delta <= 1 && -1 <= v.col_delta <= 1 && !(v.row_delta == 0 && v.col_delta == 0) {
        let k = step_index(v.row_delta as int, v.col_delta as int);
        assert(king_steps()[k] == v);
    }
}

/// The moves of a king on `from` lead to the squares of the board next to
/// `from`, to each once.
pub proof fn lemma_moves_from(from: SquareAddress, m: Move)
    ensures
        moves_from(from).contains(m) <==> m.from == from && is_king_step(from, m.to),
        moves_from(from).no_duplicates(),
{
    let f = step_move(from);
    let steps = king_steps();
    lemma_filter_map_holds(steps, f, m);
    if moves_from(from).contains(m) {
        let i = choose|i: int| 0 <= i < steps.len() && f(#[trigger] steps[i]) == Some(m);
        lemma_king_steps(steps[i]);
        assert(steps.contains(steps[i]));
    }
    if m.from == from && is_king_step(from, m.to) {
        let v = step(m.to.row - from.row, m.to.col - from.col);
        lemma_king_steps(v);
        let i = choose|i: int| 0 <= i < steps.len() && steps[i] == v;
        assert(f(steps[i]) == Some(m));
    }
    assert forall|i: int, j: int|
        0 <= i < steps.len() && 0 <= j < steps.len() && i != j && f(
            #[trigger] steps[i],
        ) is Some implies f(steps[i]) != f(#[trigger] steps[j]) by {
        lemma_king_steps(steps[i]);
    }
    lemma_king_steps(step(0, 1));
    lemma_filter_map_no_duplicates(steps, f);
}

impl Position {
    /// The squares to move from are the squares of the board with a piece of
    /// the side to move, each once.
    pub proof fn lemma_from_squares(self, sa: SquareAddress)
        ensures
            self.from_squares().contains(sa) <==> sa.is_valid() && self.squares[sa].is_player(
                self.player,
            ),
            self.from_squares().no_duplicates(),
    {
        lemma_all_squares(sa);
        lemma_filter_holds(all_squares(), self.owned(), sa);
        lemma_filter_no_duplicates(all_squares(), self.owned());
    }

    /// The moves generated are exactly the pseudo-moves: every step of a
    /// piece of the side to move to a neighbouring square of the board.
    pub proof fn lemma_pseudo_moves(self, m: Move)
        ensures
            self.pseudo_moves().contains(m) <==> self.is_pseudo_move(m),
    {
        let from = self.from_squares();
        lemma_flat_map_holds(from, moves_from_each(), m);
        if self.pseudo_moves().contains(m) {
            let i = choose|i: int| 0 <= i < from.len() && moves_from_each()(#[trigger] from[i]).contains(m);
            lemma_moves_from(from[i], m);
            assert(from.contains(from[i]));
            self.lemma_from_squares(from[i]);
        }
        if self.is_pseudo_move(m) {
            self.lemma_from_squares(m.from);
            lemma_moves_from(m.from, m);
            let i = choose|i: int| 0 <= i < from.len() && from[i] == m.from;
            assert(moves_from_each()(from[i]).contains(m));
        }
    }

    /// No pseudo-move is generated twice.
    pub proof fn lemma_pseudo_moves_no_duplicates(self)
        ensures
            self.pseudo_moves().no_duplicates(),
    {
        let from = self.from_squares();
        let f = moves_from_each();
        self.lemma_from_squares(SquareAddress { row: 0, col: 0 });
        assert forall|i: int| 0 <= i < from.len() implies f(#[trigger] from[i]).no_duplicates() by {
            lemma_moves_from(from[i], Move { from: from[i], to: from[i] });
        }
        assert forall|i: int, j: int, m: Move|
            0 <= i < from.len() && 0 <= j < from.len() && i != j && #[trigger] f(from[i]).contains(
                m,
            ) implies !#[trigger] f(from[j]).contains(m) by {
            lemma_moves_from(from[i], m);
            lemma_moves_from(from[j], m);
        }
        lemma_flat_map_no_duplicates(from, f);
    }

    /// Passing the turn `a` times and then `b` times is passing it `a + b`
    /// times.
    pub proof fn lemma_after_turns(self, a: nat, b: nat)
        ensures
            self.after_turns(a).after_turns(b) == self.after_turns(a + b),
            self.after_turns(0) == self,
    {
    }

    /// A candidate survives the check filter if and only if it does not move
    /// into check where it is tried: the candidate at index `i` with the turn
    /// passed `i` times.
    pub proof fn lemma_safe_moves(self, candidates: Seq<Move>, m: Move)
        ensures
            self.safe_moves(candidates).contains(m) <==> exists|i: int|
                0 <= i < candidates.len() && #[trigger] candidates[i] == m && !self.after_turns(
                    i as nat,
                ).moves_into_check(m),
        decreases candidates.len(),
    {
        broadcast use group_seq_properties;

        if candidates.len() > 0 {
            let init = candidates.drop_last();
            let last = candidates.last();
            let n = (candidates.len() - 1) as nat;
            self.lemma_safe_moves(init, m);
            if self.safe_moves(candidates).contains(m) {
                if self.safe_moves(init).contains(m) {
                    let i = choose|i: int|
                        0 <= i < init.len() && #[trigger] init[i] == m && !self.after_turns(
                            i as nat,
                        ).moves_into_check(m);
                    assert(candidates[i] == m);
                } else {
                    assert(candidates[n as int] == m);
                }
            }
            if exists|i: int|
                0 <= i < candidates.len() && #[trigger] candidates[i] == m && !self.after_turns(
                    i as nat,
                ).moves_into_check(m) {
                let i = choose|i: int|
                    0 <= i < candidates.len() && #[trigger] candidates[i] == m && !self.after_turns(
                        i as nat,
                    ).moves_into_check(m);
                if i < n {
                    assert(init[i] == m);
                }
            }
        }
    }

    /// Among candidates without duplicates, none survives the check filter
    /// twice.
    pub proof fn lemma_safe_moves_no_duplicates(self, candidates: Seq<Move>)
        requires
            candidates.no_duplicates(),
        ensures
            self.safe_moves(candidates).no_duplicates(),
        decreases candidates.len(),
    {
        if candidates.len() > 0 {
            let init = candidates.drop_last();
            let last = candidates.last();
            self.lemma_safe_moves_no_duplicates(init);
            self.lemma_safe_moves(init, last);
            if self.safe_moves(init).contains(last) {
                let i = choose|i: int| 0 <= i < init.len() && #[trigger] init[i] == last;
                assert(candidates[i] == candidates[candidates.len() - 1]);
            }
            if !self.after_turns((candidates.len() - 1) as nat).moves_into_check(last) {
                lemma_push_no_duplicates(self.safe_moves(init), last);
            }
        }
    }

    /// Every legal move is a pseudo-move, and none is listed twice.
    pub proof fn lemma_legal_moves(self, m: Move)
        ensures
            self.legal_moves().contains(m) ==> self.is_pseudo_move(m),
            self.legal_moves().no_duplicates(),
    {
        self.lemma_pseudo_moves_no_duplicates();
        self.lemma_safe_moves_no_duplicates(self.pseudo_moves());
        self.lemma_safe_moves(self.pseudo_moves(), m);
        self.lemma_pseudo_moves(m);
        if self.legal_moves().contains(m) {
            let i = choose|i: int|
                0 <= i < self.pseudo_moves().len() && #[trigger] self.pseudo_moves()[i] == m
                    && !self.after_turns(i as nat).moves_into_check(m);
            assert(self.pseudo_moves().contains(self.pseudo_moves()[i]));
        }
    }

    /// Making a move between squares of the board and taking it back
    /// restores every square and the log of moves. The turn is not handed
    /// back: it stays with the other side.
    pub proof fn lemma_make_unmake(self, m: Move)
        requires
            self.wf(),
            m.from.is_valid(),
            m.to.is_valid(),
        ensures
            self.make(m).unmake().squares == self.squares,
            self.make(m).unmake().history == self.history,
            self.make(m).unmake().player == self.player.next_player(),
            self.make(m).unmake() == self.after_turns(1),
    {
        let back = self.make(m).unmake();
        assert(self.make(m).history.last() == (ReversibleMove { mv: m, org: self.squares[m.to] }));
        assert(back.squares =~= self.squares);
        assert(back.history =~= self.history);
    }
}

} // verus!
