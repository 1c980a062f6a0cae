use eschec::bitboard::BitBoard;
use eschec::board_state::BoardState;
use eschec::components::{Piece, Side, Square};
use eschec::moves::Moves;

#[test]
fn test_pawn_moves_white() {
    let stm = Side::White;
    let pawn = Piece::Pawn;
    let state = BoardState::default();
    let moves = Moves::new(pawn, stm, state);

    let square_index = 8;
    let expected = BitBoard(1 << 16).or(BitBoard(1 << 24));
    assert_eq!(moves.attack_bb[square_index], expected);
}

#[test]
fn test_pawn_moves_black() {
    let stm = Side::Black;
    let pawn = Piece::Pawn;
    let state = BoardState::default();
    let moves = Moves::new(pawn, stm, state);

    let square_index = 48;
    let expected = BitBoard(1 << 40).or(BitBoard(1 << 32));
    assert_eq!(moves.attack_bb[square_index], expected);
}

#[test]
fn test_knight_moves() {
    let stm = Side::White;
    let knight = Piece::Knight;
    let state = BoardState::default();
    let moves = Moves::new(knight, stm, state);

    let square = Square::new(1).unwrap();
    let expected_moves = BitBoard(1 << 18).or(BitBoard(1 << 16)).or(BitBoard(1 << 11));
    assert_eq!(moves.attack_bb[square.index()], expected_moves);
}

#[test]
fn test_rook_moves() {
    let stm = Side::White;
    let rook = Piece::Rook;
    let state = BoardState::default();
    let moves = Moves::new(rook, stm, state);

    let square_index = 0;
    let mut expected_moves = (0..8)
        .map(|r| BitBoard(1 << r).or(BitBoard(1 << (r * 8))))
        .fold(BitBoard(0), |acc, bb| acc.or(bb));
    expected_moves.capture(0);
    assert_eq!(moves.attack_bb[square_index], expected_moves);
}

#[test]
fn test_bishop_moves() {
    let stm = Side::White;
    let bishop = Piece::Bishop;
    let state = BoardState::default();
    let moves = Moves::new(bishop, stm, state);

    let square_index = 18;
    let expected_moves = BitBoard(9241421692918565393);

    println!("expected: \n{}", expected_moves.print_bitboard());
    assert_eq!(moves.attack_bb[square_index], expected_moves);
}

#[test]
fn test_queen_moves() {
    let stm = Side::White;
    let queen = Piece::Queen;
    let state = BoardState::default();
    let moves = Moves::new(queen, stm, state);

    let square_index = 0;
    let expected_moves =
        moves.gen_rook_moves(stm)[square_index].or(moves.gen_bishop_moves(stm)[square_index]);
    assert_eq!(moves.attack_bb[square_index], expected_moves);
}

#[test]
fn test_king_moves() {
    let stm = Side::White;
    let king = Piece::King;
    let state = BoardState::default();
    let moves = Moves::new(king, stm, state);

    let square_index = 36;
    let expected_moves = BitBoard(1 << 27)
        .or(BitBoard(1 << 28))
        .or(BitBoard(1 << 29))
        .or(BitBoard(1 << 35))
        .or(BitBoard(1 << 37))
        .or(BitBoard(1 << 43))
        .or(BitBoard(1 << 44))
        .or(BitBoard(1 << 45));
    assert_eq!(moves.attack_bb[square_index], expected_moves);
}

#[test]
fn test_all_possible_moves() {
    let moves = Moves::all_possible_moves(BoardState::default());

    assert_eq!(moves.len(), 12);
}

#[test]
fn test_piece_move_generation() {
    let m = Moves::default();
    let white_pawn_moves = Moves::gen_pawn_moves(&m, Side::White);
    let black_pawn_moves = Moves::gen_pawn_moves(&m, Side::Black);
    let knight_moves = Moves::gen_knight_moves(&m, Side::White);
    let rook_moves = Moves::gen_rook_moves(&m, Side::White);
    let bishop_moves = Moves::gen_bishop_moves(&m, Side::White);
    let queen_moves = Moves::gen_queen_moves(&m, Side::White);
    let king_moves = Moves::gen_king_moves(&m, Side::White);

    assert!(!white_pawn_moves.is_empty());
    assert!(!black_pawn_moves.is_empty());
    assert!(!knight_moves.is_empty());
    assert!(!rook_moves.is_empty());
    assert!(!bishop_moves.is_empty());
    assert!(!queen_moves.is_empty());
    assert!(!king_moves.is_empty());
}

#[test]
fn make_legal_removes_own_pieces() {
    let state = BoardState::default();
    let mut moves = Moves::new(Piece::Rook, Side::White, state);
    let before = moves.attack_bb[0];
    let mut board = BoardState::default();
    board.set(Side::White, Piece::Knight, 8).unwrap();
    board.set(Side::Black, Piece::Knight, 1).unwrap();
    moves.make_legal(&Side::White, &board);
    assert_eq!(moves.attack_bb[0], before.and(BitBoard(1 << 8).not()));
    assert_eq!(moves.attack_bb.len(), 64);
}

#[test]
fn all_possible_moves_kinds_in_order() {
    let moves = Moves::all_possible_moves(BoardState::default());
    assert_eq!(moves[0].piece, Piece::Pawn);
    assert_eq!(moves[5].piece, Piece::King);
    assert_eq!(moves[6].piece, Piece::Pawn);
    assert_eq!(moves[6].attack_bb[48], BitBoard(1 << 40).or(BitBoard(1 << 32)));
}
