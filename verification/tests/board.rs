use king_moves::{Board, Move, Moves, Piece, Player, PlayerPiece, Square, SquareAddress};
use std::collections::HashSet;

fn as_set(moves: Moves) -> HashSet<Move> {
    let n = moves.len();
    let set: HashSet<Move> = moves.into_iter().collect();
    // a list of moves holds none twice
    assert_eq!(set.len(), n);
    set
}

#[test]
fn test_empty_board() {
    let b = Board::new();
    for sa in Board::all_addresses() {
        assert!(b.get_square(&sa).is_empty());
    }
}

#[test]
#[should_panic]
fn test_illegal_row_index() {
    let b = Board::new();
    let sa = SquareAddress::new(8, 0);
    b.get_square(&sa);
}

#[test]
#[should_panic]
fn test_illegal_col_index() {
    let b = Board::new();
    let sa = SquareAddress::new(0, 8);
    b.get_square(&sa);
}

#[test]
fn test_white_king_at_0_0() {
    let mut b = Board::new();
    let wk = PlayerPiece::new(Player::White, Piece::King);
    let sa = SquareAddress::new(0, 0);
    assert!(!b.get_square(&sa).is_white_king());
    let s = Square::new_player_piece(wk);
    b.set_square(&sa, s);
    assert!(!b.get_square(&sa).is_empty());
    assert!(b.get_square(&sa).is_white_king());
}

#[test]
fn test_white_king_at_0_0_moves() {
    let mut b = Board::new();
    let wk = PlayerPiece::new(Player::White, Piece::King);
    let sa = SquareAddress::new(0, 0);
    let s = Square::new_player_piece(wk);
    b.set_square(&sa, s);
    let mut expected = HashSet::new();
    expected.insert(Move::new(sa.clone(), SquareAddress::new(1, 1)));
    expected.insert(Move::new(sa.clone(), SquareAddress::new(0, 1)));
    expected.insert(Move::new(sa.clone(), SquareAddress::new(1, 0)));
    assert_eq!(as_set(b.get_moves()), expected);
}

fn king_moves_from_7_0() -> HashSet<Move> {
    let mut m = HashSet::new();
    let sa = SquareAddress::new(7, 0);
    m.insert(Move::new(sa.clone(), SquareAddress::new(7, 1)));
    m.insert(Move::new(sa.clone(), SquareAddress::new(6, 1)));
    m.insert(Move::new(sa.clone(), SquareAddress::new(6, 0)));
    m
}

fn test_king_moves_at_7_0(pp: PlayerPiece) {
    let mut b = Board::new();
    b.set_player(pp.player);
    let s = Square::new_player_piece(pp);
    let sa = SquareAddress::new(7, 0);
    b.set_square(&sa, s);
    let expected = king_moves_from_7_0();
    assert_eq!(as_set(b.get_moves()), expected);
}

#[test]
fn test_white_king_at_7_0_moves() {
    let wk = PlayerPiece::new(Player::White, Piece::King);
    test_king_moves_at_7_0(wk);
}

#[test]
fn test_black_king_at_7_0_moves() {
    let bk = PlayerPiece::new(Player::Black, Piece::King);
    test_king_moves_at_7_0(bk);
}

#[test]
fn test_make_move() {
    let mut b = Board::new();
    let wk = PlayerPiece::new(Player::White, Piece::King);
    let sa1 = SquareAddress::new(0, 0);
    let s1 = Square::PlayerPiece(wk);
    b.set_square(&sa1, s1);
    let m = Move::new(sa1.clone(), SquareAddress::new(1, 1));
    b.make_move(m);
    assert!(b.get_square(&sa1).is_empty());
    assert!(b.get_square(&SquareAddress::new(1, 1)).is_white_king());
    assert_eq!(b.player(), Player::Black);
}

#[test]
fn test_unmake_move() {
    let mut b = Board::new();

    let wk = PlayerPiece::new(Player::White, Piece::King);
    let sa1 = SquareAddress::new(0, 0);
    let s1 = Square::PlayerPiece(wk);
    b.set_square(&sa1, s1);

    let sa2 = SquareAddress::new(1, 1);
    let bk = PlayerPiece::new(Player::Black, Piece::King);
    let s2 = Square::PlayerPiece(bk);
    b.set_square(&sa2, s2);

    let m = Move::new(sa1.clone(), sa2.clone());
    b.make_move(m);
    b.unmake_move();
    // black king should be restored on sa2
    // white king should be back to sa1

    assert_eq!(b.get_square(&sa2), s2);
    assert_eq!(b.get_square(&sa1), s1);
}

#[test]
fn test_kings_cannot_move_into_check() {
    let mut b = Board::new();
    let wk = PlayerPiece::new(Player::White, Piece::King);
    let sa1 = SquareAddress::new(0, 0);
    let s1 = Square::PlayerPiece(wk);
    b.set_square(&sa1, s1);

    let bk = PlayerPiece::new(Player::Black, Piece::King);
    let sa2 = SquareAddress::new(2, 0);
    let s2 = Square::PlayerPiece(bk);
    b.set_square(&sa2, s2);

    let mut expected = HashSet::new();
    expected.insert(Move::new(sa1.clone(), SquareAddress::new(0, 1)));

    assert_eq!(as_set(b.get_moves()), expected);
}
