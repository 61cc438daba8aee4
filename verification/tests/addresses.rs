use king_moves::{Board, MoveVector, Piece, Player, PlayerPiece, Square, SquareAddress, BOARD_SIZE};

#[test]
fn next_player_alternates() {
    assert_eq!(Player::White.next_player(), Player::Black);
    assert_eq!(Player::Black.next_player(), Player::White);
    assert_eq!(Player::White.next_player().next_player(), Player::White);
}

#[test]
fn player_piece_keeps_its_parts() {
    let pp = PlayerPiece::new(Player::Black, Piece::King);
    assert_eq!(pp.player, Player::Black);
    assert_eq!(pp.piece, Piece::King);
    assert!(pp.is_piece(Piece::King));
}

#[test]
fn empty_square_predicates() {
    let s = Square::new_empty();
    assert_eq!(s, Square::Empty);
    assert!(s.is_empty());
    assert!(!s.is_player(Player::White));
    assert!(!s.is_player(Player::Black));
    assert_eq!(s.get_player_piece(), None);
    assert!(!s.is_king());
    assert!(!s.is_white_king());
}

#[test]
fn occupied_square_predicates() {
    let wk = PlayerPiece::new(Player::White, Piece::King);
    let bk = PlayerPiece::new(Player::Black, Piece::King);
    let w = Square::new_player_piece(wk);
    let b = Square::new_player_piece(bk);
    assert_eq!(w, Square::PlayerPiece(wk));
    assert!(!w.is_empty());
    assert!(w.is_player(Player::White));
    assert!(!w.is_player(Player::Black));
    assert_eq!(w.get_player_piece(), Some(wk));
    assert!(w.is_king());
    assert!(w.is_white_king());
    assert!(b.is_player(Player::Black));
    assert!(!b.is_player(Player::White));
    assert_eq!(b.get_player_piece(), Some(bk));
    assert!(b.is_king());
    assert!(!b.is_white_king());
}

#[test]
fn address_validity() {
    assert_eq!(BOARD_SIZE, 8);
    assert!(SquareAddress::new(0, 0).is_valid());
    assert!(SquareAddress::new(7, 7).is_valid());
    assert!(SquareAddress::new(3, 5).is_valid());
    assert!(!SquareAddress::new(8, 0).is_valid());
    assert!(!SquareAddress::new(0, 8).is_valid());
    assert!(!SquareAddress::new(8, 8).is_valid());
    // far beyond the board, where a narrow signed number would wrap round
    assert!(!SquareAddress::new(256, 0).is_valid());
    assert!(!SquareAddress::new(0, 256).is_valid());
    assert!(!SquareAddress::new(usize::MAX, 0).is_valid());
}

#[test]
fn address_new_does_not_validate() {
    let sa = SquareAddress::new(12, 99);
    assert_eq!(sa.row, 12);
    assert_eq!(sa.col, 99);
}

#[test]
fn index_validity() {
    assert!(SquareAddress::is_valid_index(0));
    assert!(SquareAddress::is_valid_index(7));
    assert!(!SquareAddress::is_valid_index(8));
    assert!(!SquareAddress::is_valid_index(-1));
    assert!(!SquareAddress::is_valid_index(127));
    assert!(!SquareAddress::is_valid_index(-128));
}

#[test]
fn move_vector_keeps_its_parts() {
    let v = MoveVector::new(-1, 1);
    assert_eq!(v.row_delta, -1);
    assert_eq!(v.col_delta, 1);
}

#[test]
fn add_vector_inside_the_board() {
    let sa = SquareAddress::new(3, 4);
    assert_eq!(sa.add_vector(&MoveVector::new(1, 1)), Some(SquareAddress::new(4, 5)));
    assert_eq!(sa.add_vector(&MoveVector::new(-1, -1)), Some(SquareAddress::new(2, 3)));
    assert_eq!(sa.add_vector(&MoveVector::new(0, 1)), Some(SquareAddress::new(3, 5)));
    assert_eq!(sa.add_vector(&MoveVector::new(-3, -4)), Some(SquareAddress::new(0, 0)));
    assert_eq!(sa.add_vector(&MoveVector::new(4, 3)), Some(SquareAddress::new(7, 7)));
    assert_eq!(sa.add_vector(&MoveVector::new(0, 0)), Some(sa));
}

#[test]
fn add_vector_off_the_edges() {
    let corner = SquareAddress::new(0, 0);
    assert_eq!(corner.add_vector(&MoveVector::new(-1, 0)), None);
    assert_eq!(corner.add_vector(&MoveVector::new(0, -1)), None);
    assert_eq!(corner.add_vector(&MoveVector::new(-1, -1)), None);
    assert_eq!(corner.add_vector(&MoveVector::new(-128, -128)), None);
    let far = SquareAddress::new(7, 7);
    assert_eq!(far.add_vector(&MoveVector::new(1, 0)), None);
    assert_eq!(far.add_vector(&MoveVector::new(0, 1)), None);
    assert_eq!(far.add_vector(&MoveVector::new(1, 1)), None);
    assert_eq!(far.add_vector(&MoveVector::new(127, 127)), None);
    assert_eq!(far.add_vector(&MoveVector::new(-1, 1)), None);
    assert_eq!(far.add_vector(&MoveVector::new(-1, -1)), Some(SquareAddress::new(6, 6)));
}

#[test]
fn add_vector_from_outside_the_board() {
    // a step may lead back onto the board
    let out = SquareAddress::new(8, 3);
    assert_eq!(out.add_vector(&MoveVector::new(-1, 0)), Some(SquareAddress::new(7, 3)));
    assert_eq!(out.add_vector(&MoveVector::new(0, 1)), None);
    let out = SquareAddress::new(128, 135);
    assert_eq!(out.add_vector(&MoveVector::new(-128, -128)), Some(SquareAddress::new(0, 7)));
    assert_eq!(out.add_vector(&MoveVector::new(-127, -128)), Some(SquareAddress::new(1, 7)));
    assert_eq!(out.add_vector(&MoveVector::new(-128, -127)), None);
    // the sums are the true ones, however large the address
    assert_eq!(SquareAddress::new(256, 0).add_vector(&MoveVector::new(0, 1)), None);
    assert_eq!(SquareAddress::new(0, 257).add_vector(&MoveVector::new(1, -1)), None);
    assert_eq!(SquareAddress::new(usize::MAX, usize::MAX).add_vector(&MoveVector::new(1, 1)), None);
    assert_eq!(SquareAddress::new(usize::MAX, 0).add_vector(&MoveVector::new(-128, 0)), None);
}

#[test]
fn all_addresses_row_by_row() {
    let all = Board::all_addresses();
    assert_eq!(all.len(), 64);
    assert_eq!(all[0], SquareAddress::new(0, 0));
    assert_eq!(all[1], SquareAddress::new(0, 1));
    assert_eq!(all[7], SquareAddress::new(0, 7));
    assert_eq!(all[8], SquareAddress::new(1, 0));
    assert_eq!(all[27], SquareAddress::new(3, 3));
    assert_eq!(all[63], SquareAddress::new(7, 7));
    for (i, sa) in all.iter().enumerate() {
        assert!(sa.is_valid());
        assert_eq!(sa.row * 8 + sa.col, i);
    }
}

#[test]
fn move_vectors_in_order() {
    let steps = Board::move_vectors();
    let expected = vec![
        MoveVector::new(0, 1),
        MoveVector::new(0, -1),
        MoveVector::new(1, 1),
        MoveVector::new(1, -1),
        MoveVector::new(1, 0),
        MoveVector::new(-1, 1),
        MoveVector::new(-1, 0),
        MoveVector::new(-1, -1),
    ];
    assert_eq!(steps, expected);
}
