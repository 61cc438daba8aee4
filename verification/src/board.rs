//! The board: its squares, the side to move, and the moves made so far.

use vstd::prelude::*;
use crate::address::{MoveVector, SquareAddress, BOARD_SIZE};
use crate::moves::{Move, ReversibleMove};
use crate::laws::lemma_all_squares;
use crate::position::{all_squares, king_steps, moves_from_each, step_move, Position};
use crate::square::{Player, Square};

verus! {

/// The moves that a board generates: a list that holds no move twice.
pub type Moves = Vec<Move>;

/// The moves generated once `i` squares of departure are done with, and `j`
/// steps from the next of them, `sa`.
spec fn generated(from: Seq<SquareAddress>, i: int, sa: SquareAddress, j: int) -> Seq<Move> {
    from.take(i).flat_map(moves_from_each()) + king_steps().take(j).filter_map(step_move(sa))
}

/// How far move generation looks ahead: with the check filter, to the replies
/// to each move, which are generated without it.
pub open spec fn lookahead(check: bool) -> nat {
    if check {
        2
    } else {
        0
    }
}

/// An 8x8 board of kings, with the side to move and an undo log.
///
/// The view of a board is its [`Position`].
pub struct Board {
    squares: [[Square; BOARD_SIZE]; BOARD_SIZE],
    player: Player,
    history: Vec<ReversibleMove>,
}

impl View for Board {
    type V = Position;

    closed spec fn view(&self) -> Position {
        Position {
            squares: Map::new(
                |sa: SquareAddress| sa.is_valid(),
                |sa: SquareAddress| self.squares[sa.row as int][sa.col as int],
            ),
            player: self.player,
            history: self.history@,
        }
    }
}

impl Board {
    /// Only moves between squares of the board are ever recorded.
    #[verifier::type_invariant]
    spec fn recorded_on_board(self) -> bool {
        forall|i: int|
            0 <= i < self.history@.len() ==> {
                &&& (#[trigger] self.history@[i]).mv.from.is_valid()
                &&& self.history@[i].mv.to.is_valid()
            }
    }

    /// The view of any board has the squares of the board and no others.
    pub proof fn lemma_view_wf(&self)
        ensures
            self@.wf(),
    {
    }

    /// An empty board with White to move.
    pub fn new() -> (b: Self)
        ensures
            b@ == Position::initial(),
            forall|sa: SquareAddress| sa.is_valid() ==> (#[trigger] b@.squares[sa]).is_empty(),
    {
        let squares = [[Square::Empty; BOARD_SIZE]; BOARD_SIZE];
        let player = Player::White;
        let history = Vec::new();
        let b = Board { squares: squares, player: player, history: history };
        assert(b@.squares =~= Position::initial().squares);
        b
    }

    /// The side to move.
    pub fn player(&self) -> (p: Player)
        ensures
            p == self@.player,
    {
        self.player
    }

    /// How many moves have been made and not taken back.
    pub fn history_len(&self) -> (n: usize)
        ensures
            n == self@.history.len(),
    {
        self.history.len()
    }

    /// Hands the move to `player`.
    pub fn set_player(&mut self, player: Player)
        ensures
            final(self)@ == old(self)@.with_player(player),
    {
        proof {
            use_type_invariant(&*self);
        }
        self.player = player;
    }

    /// All addresses of the board, row by row.
    pub fn all_addresses() -> (r: Vec<SquareAddress>)
        ensures
            r@ == all_squares(),
    {
        let mut r = Vec::new();
        for row in 0..BOARD_SIZE
            invariant
                r@ == all_squares().take(row * BOARD_SIZE),
        {
            for col in 0..BOARD_SIZE
                invariant
                    row < BOARD_SIZE,
                    r@ == all_squares().take(row * BOARD_SIZE + col),
            {
                let sa = SquareAddress::new(row, col);
                r.push(sa);
            }
        }
        r
    }

    /// The occupant of a square of the board.
    pub fn get_square(&self, sa: &SquareAddress) -> (s: Square)
        requires
            sa.is_valid(),
        ensures
            s == self@.squares[*sa],
    {
        self.squares[sa.row][sa.col]
    }

    /// Puts `s` on a square of the board, in place of what stood there.
    pub fn set_square(&mut self, sa: &SquareAddress, s: Square)
        requires
            sa.is_valid(),
        ensures
            final(self)@ == old(self)@.place(*sa, s),
    {
        proof {
            use_type_invariant(&*self);
        }
        self.squares[sa.row][sa.col] = s;
        assert(self@.squares =~= old(self)@.place(*sa, s).squares);
    }

    /// The eight steps that a king can take.
    pub fn move_vectors() -> (r: Vec<MoveVector>)
        ensures
            r@ == king_steps(),
    {
        let mut r = Vec::new();
        r.push(MoveVector::new(0, 1));
        r.push(MoveVector::new(0, -1));
        r.push(MoveVector::new(1, 1));
        r.push(MoveVector::new(1, -1));
        r.push(MoveVector::new(1, 0));
        r.push(MoveVector::new(-1, 1));
        r.push(MoveVector::new(-1, 0));
        r.push(MoveVector::new(-1, -1));
        r
    }

    /// Makes move `m` and hands the move to the other side.
    ///
    /// The piece on `m.from` goes to `m.to`, where it replaces whatever stood
    /// there, of either side; what stood there is kept for `unmake_move`.
    pub fn make_move(&mut self, m: Move)
        requires
            m.from.is_valid(),
            m.to.is_valid(),
            !old(self)@.squares[m.from].is_empty(),
        ensures
            final(self)@ == old(self)@.make(m),
    {
        proof {
            use_type_invariant(&*self);
        }
        let pp = self.get_square(&m.from).get_player_piece().unwrap();

        let org = self.get_square(&m.to);
        let rm = ReversibleMove { mv: m, org: org };
        // the log is taken out while it grows, so that `self` is whole throughout
        let mut history = Vec::new();
        std::mem::swap(&mut self.history, &mut history);
        history.push(rm);
        self.history = history;

        let s = Square::PlayerPiece(pp);
        self.set_square(&m.to, s);

        let s = Square::Empty;
        self.set_square(&m.from, s);

        self.player = self.player.next_player();
    }

    /// Takes the last move back: the piece returns to where it came from, and
    /// its destination holds again what it held before.
    ///
    /// The side to move is left as it is: it is not handed back.
    pub fn unmake_move(&mut self)
        requires
            old(self)@.history.len() > 0,
        ensures
            final(self)@ == old(self)@.unmake(),
    {
        proof {
            use_type_invariant(&*self);
        }
        let mut history = Vec::new();
        std::mem::swap(&mut self.history, &mut history);
        let rm = history.pop().unwrap();
        self.history = history;
        // move piece back to original square
        let moved = self.get_square(&rm.mv.to);
        self.set_square(&rm.mv.from, moved);
        // restore square that was moved to
        self.set_square(&rm.mv.to, rm.org);
    }

    /// The squares that hold a piece of the side to move, row by row.
    pub fn find_from_squares(&self) -> (r: Vec<SquareAddress>)
        ensures
            r@ == self@.from_squares(),
    {
        let mut r = Vec::new();
        let all = Self::all_addresses();
        for i in 0..all.len()
            invariant
                all@ == all_squares(),
                r@ == all@.take(i as int).filter(self@.owned()),
        {
            let sa = all[i];
            proof {
                lemma_all_squares(sa);
                assert(all@.contains(all@[i as int]));
            }
            let sq = self.get_square(&sa);
            if sq.is_player(self.player) {
                r.push(sa);
            }
            proof {
                all@.lemma_take_succ_push(i as int);
                all@.take(i as int).lemma_filter_push(sa, self@.owned());
            }
        }
        proof {
            assert(all@.take(all@.len() as int) =~= all@);
        }
        r
    }

    /// Whether move `m` would put a king in check: whether, once it is made,
    /// a piece of the side then to move could step onto a king.
    ///
    /// The move is made, the replies are looked at, and the move is taken
    /// back. The squares and the log of moves are as before afterwards; the
    /// turn has passed to the other side.
    pub fn moves_into_check(&mut self, m: Move) -> (in_check: bool)
        requires
            m.from.is_valid(),
            m.to.is_valid(),
            !old(self)@.squares[m.from].is_empty(),
        ensures
            in_check == old(self)@.moves_into_check(m),
            final(self)@ == old(self)@.after_turns(1),
        decreases 1nat,
    {
        let ghost before = self@;
        proof {
            self.lemma_view_wf();
            before.lemma_make_unmake(m);
        }
        self.make_move(m);
        // look 1 move ahead for next player, without the check filter
        let replies = self.get_moves_check(false);
        let ghost after = self@;
        for i in 0..replies.len()
            invariant
                before == old(self)@,
                self@ == after,
                after == before.make(m),
                after.unmake() == before.after_turns(1),
                replies@ == after.pseudo_moves(),
                forall|k: int| 0 <= k < i ==> !after.squares[(#[trigger] replies@[k]).to].is_king(),
        {
            let reply = replies[i];
            proof {
                assert(replies@.contains(replies@[i as int]));
                after.lemma_pseudo_moves(reply);
            }
            // if reply.to has a king in it, we have moved into check
            if self.get_square(&reply.to).is_king() {
                self.unmake_move();
                return true;
            }
        }
        self.unmake_move();
        proof {
            assert forall|reply: Move| after.is_pseudo_move(reply) implies !after.squares[reply.to].is_king() by {
                after.lemma_pseudo_moves(reply);
                let k = choose|k: int| 0 <= k < replies@.len() && replies@[k] == reply;
                assert(!after.squares[replies@[k].to].is_king());
            }
        }
        false
    }

    /// The legal moves of the side to move: its pseudo-moves, less those
    /// that move into check.
    ///
    /// Each pseudo-move is tried with `moves_into_check`, which passes the
    /// turn: when this returns, the turn has passed once for each of them.
    pub fn get_moves(&mut self) -> (moves: Moves)
        ensures
            moves@ == old(self)@.legal_moves(),
            moves@.no_duplicates(),
            final(self)@ == old(self)@.after_turns(old(self)@.pseudo_moves().len()),
    {
        self.get_moves_check(true)
    }

    /// The moves of the side to move: every step of one of its pieces to a
    /// neighbouring square of the board and, if `check` is set, of these only
    /// the ones that do not move into check.
    ///
    /// The moves come in the order of generation, none of them twice. With
    /// `check` set the turn passes once for each pseudo-move, as it does in
    /// `moves_into_check`; squares and log end as they began.
    pub fn get_moves_check(&mut self, check: bool) -> (moves: Moves)
        ensures
            moves@ == old(self)@.moves(check),
            moves@.no_duplicates(),
            final(self)@ == old(self)@.after_trials(check, old(self)@.pseudo_moves().len()),
        decreases lookahead(check),
    {
        let mut moves = Vec::new();
        // first find squares to move from
        let from_squares = self.find_from_squares();
        let ghost start = self@;
        for i in 0..from_squares.len()
            invariant
                from_squares@ == start.from_squares(),
                self@ == start.after_trials(
                    check,
                    from_squares@.take(i as int).flat_map(moves_from_each()).len(),
                ),
                moves@ == start.kept_moves(
                    check,
                    from_squares@.take(i as int).flat_map(moves_from_each()),
                ),
        {
            let sa = from_squares[i];
            let vectors = Self::move_vectors();
            proof {
                assert(from_squares@.contains(from_squares@[i as int]));
                start.lemma_from_squares(sa);
                assert(generated(from_squares@, i as int, sa, 0) =~= from_squares@.take(i as int).flat_map(
                    moves_from_each(),
                ));
            }
            for j in 0..vectors.len()
                invariant
                    vectors@ == king_steps(),
                    sa.is_valid(),
                    start.squares[sa].is_player(start.player),
                    self@ == start.after_trials(
                        check,
                        generated(from_squares@, i as int, sa, j as int).len(),
                    ),
                    moves@ == start.kept_moves(
                        check,
                        generated(from_squares@, i as int, sa, j as int),
                    ),
            {
                let ghost seen = generated(from_squares@, i as int, sa, j as int);
                let t = sa.add_vector(&vectors[j]);
                proof {
                    king_steps().lemma_filter_map_take_succ(step_move(sa), j as int);
                }
                if let Some(ta) = t {
                    let m = Move::new(sa, ta);
                    proof {
                        assert(generated(from_squares@, i as int, sa, j + 1) =~= seen.push(m));
                        assert(seen.push(m).drop_last() =~= seen);
                        start.lemma_after_turns(seen.len(), 1);
                    }
                    if !check || !self.moves_into_check(m) {
                        moves.push(Move::new(sa, ta));
                    }
                } else {
                    proof {
                        assert(generated(from_squares@, i as int, sa, j + 1) =~= seen);
                    }
                }
            }
            proof {
                assert(king_steps().take(vectors@.len() as int) =~= king_steps());
                from_squares@.lemma_flat_map_take_append(moves_from_each(), i as int);
            }
        }
        proof {
            assert(from_squares@.take(from_squares@.len() as int) =~= from_squares@);
            start.lemma_pseudo_moves_no_duplicates();
            start.lemma_safe_moves_no_duplicates(start.pseudo_moves());
        }
        moves
    }
}

} // verus!
