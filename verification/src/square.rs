//! Who stands on a square: players, pieces and the two states of a cell.

use vstd::prelude::*;

verus! {

/// One of the two sides.
#[derive(Debug, Copy, Clone, PartialEq, Eq, Structural)]
pub enum Player {
    White,
    Black,
}

/// The kinds of piece. The king is the only one so far.
#[derive(Debug, Copy, Clone, PartialEq, Eq, Structural)]
pub enum Piece {
    King,
}

/// A piece together with the side that owns it.
#[derive(Debug, Copy, Clone, PartialEq, Eq, Structural)]
pub struct PlayerPiece {
    pub player: Player,
    pub piece: Piece,
}

/// One cell of the board: nobody on it, or exactly one piece.
#[derive(Debug, Copy, Clone, PartialEq, Eq, Structural)]
pub enum Square {
    Empty,
    PlayerPiece(PlayerPiece),
}

impl Player {
    /// What `next_player` returns.
    pub open spec fn spec_next_player(&self) -> Player {
        match self {
            Player::White => Player::Black,
            Player::Black => Player::White,
        }
    }

    /// The side that moves after `self`: White and Black alternate.
    #[verifier::when_used_as_spec(spec_next_player)]
    pub fn next_player(&self) -> (next: Player)
        ensures
            next == self.spec_next_player(),
    {
        match self {
            Player::White => Player::Black,
            Player::Black => Player::White,
        }
    }
}

impl PlayerPiece {
    /// The piece of kind `piece` that belongs to `player`.
    pub fn new(player: Player, piece: Piece) -> (pp: Self)
        ensures
            pp.player == player,
            pp.piece == piece,
    {
        Self { player: player, piece: piece }
    }

    /// What `is_piece` returns.
    pub open spec fn spec_is_piece(&self, piece: Piece) -> bool {
        self.piece == piece
    }

    /// Whether this is a piece of the given kind, whoever owns it.
    #[verifier::when_used_as_spec(spec_is_piece)]
    pub fn is_piece(&self, piece: Piece) -> (b: bool)
        ensures
            b == self.spec_is_piece(piece),
    {
        self.piece == piece
    }
}

impl Square {
    /// A square with nobody on it.
    pub fn new_empty() -> (s: Self)
        ensures
            s == Square::Empty,
    {
        Self::Empty
    }

    /// A square with `p` on it.
    pub fn new_player_piece(p: PlayerPiece) -> (s: Self)
        ensures
            s == Square::PlayerPiece(p),
    {
        Self::PlayerPiece(p)
    }

    /// What `is_empty` returns.
    pub open spec fn spec_is_empty(&self) -> bool {
        *self == Square::Empty
    }

    /// Whether nobody stands here.
    #[verifier::when_used_as_spec(spec_is_empty)]
    pub fn is_empty(&self) -> (b: bool)
        ensures
            b == self.spec_is_empty(),
    {
        match self {
            Self::Empty => true,
            _ => false,
        }
    }

    /// What `is_player` returns.
    pub open spec fn spec_is_player(&self, player: Player) -> bool {
        match self {
            Square::Empty => false,
            Square::PlayerPiece(pp) => pp.player == player,
        }
    }

    /// Whether a piece of `player` stands here.
    #[verifier::when_used_as_spec(spec_is_player)]
    pub fn is_player(&self, player: Player) -> (b: bool)
        ensures
            b == self.spec_is_player(player),
    {
        match self {
            Self::Empty => false,
            Self::PlayerPiece(pp) => pp.player == player,
        }
    }

    /// What `get_player_piece` returns.
    pub open spec fn spec_get_player_piece(&self) -> Option<PlayerPiece> {
        match self {
            Square::Empty => None,
            Square::PlayerPiece(pp) => Some(*pp),
        }
    }

    /// The piece that stands here, if there is one.
    #[verifier::when_used_as_spec(spec_get_player_piece)]
    pub fn get_player_piece(&self) -> (occupant: Option<PlayerPiece>)
        ensures
            occupant == self.spec_get_player_piece(),
    {
        match self {
            Self::Empty => None,
            Self::PlayerPiece(pp) => Some(*pp),
        }
    }

    /// What `is_king` returns.
    pub open spec fn spec_is_king(&self) -> bool {
        match self {
            Square::Empty => false,
            Square::PlayerPiece(pp) => pp.piece == Piece::King,
        }
    }

    /// Whether a king stands here, of either side.
    #[verifier::when_used_as_spec(spec_is_king)]
    pub fn is_king(&self) -> (b: bool)
        ensures
            b == self.spec_is_king(),
    {
        match self {
            Self::Empty => false,
            Self::PlayerPiece(pp) => pp.is_piece(Piece::King),
        }
    }

    /// What `is_white_king` returns.
    pub open spec fn spec_is_white_king(&self) -> bool {
        *self == Square::PlayerPiece(PlayerPiece { player: Player::White, piece: Piece::King })
    }

    /// Whether the white king stands here.
    #[verifier::when_used_as_spec(spec_is_white_king)]
    pub fn is_white_king(&self) -> (b: bool)
        ensures
            b == self.spec_is_white_king(),
    {
        self.is_player(Player::White) && self.get_player_piece().unwrap().is_piece(Piece::King)
    }
}

} // verus!
