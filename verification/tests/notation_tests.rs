use eschec::board::Board;
use eschec::components::{Piece, Side, Square};
use eschec::move_info::{Move, CAPTURE, DOUBLE_PAWN, EN_PASSANT, KING_CASTLE, PROMO_QC, QUEEN_CASTLE};
use eschec::zobrist::ZobristKeys;

#[test]
fn test_from_uci_simple_quiet_move() {
    let keys = ZobristKeys::new();
    let board = Board::from_fen("rnbqkbnr/pppppppp/8/8/8/8/PPPPPPPP/RNBQKBNR w KQkq - 0 1", &keys);
    let mov = Move::from_uci(&board, "e2e4", &keys).unwrap();
    assert_eq!(mov.from_sq(), Square::from_str("e2").unwrap());
    assert_eq!(mov.to_sq(), Square::from_str("e4").unwrap());
    assert_eq!(mov.flags(), DOUBLE_PAWN);
}

#[test]
fn test_from_uci_simple_capture() {
    let keys = ZobristKeys::new();
    let board = Board::from_fen("rnbqkbnr/ppp1pppp/8/3p4/4P3/8/PPPP1PPP/RNBQKBNR w KQkq - 0 1", &keys);
    let mov = Move::from_uci(&board, "e4d5", &keys).unwrap();
    assert_eq!(mov.flags(), CAPTURE);
}

#[test]
fn test_from_uci_promotion() {
    let keys = ZobristKeys::new();
    let board = Board::from_fen("rnbq1bnr/pppkPppp/8/8/8/8/PPPP1PPP/RNBQKBNR w KQ - 1 5", &keys);
    let mov = Move::from_uci(&board, "e7d8q", &keys).unwrap();
    assert_eq!(mov.flags(), PROMO_QC);
    assert_eq!(mov.promoted_piece(), Some(Piece::Queen));
}

#[test]
fn test_from_uci_castling() {
    let keys = ZobristKeys::new();
    let board = Board::from_fen("r3k2r/pppppppp/8/8/8/8/PPPPPPPP/R3K2R w KQkq - 0 1", &keys);
    let mov_ks = Move::from_uci(&board, "e1g1", &keys).unwrap();
    assert_eq!(mov_ks.flags(), KING_CASTLE);
    let mov_qs = Move::from_uci(&board, "e1c1", &keys).unwrap();
    assert_eq!(mov_qs.flags(), QUEEN_CASTLE);
}

#[test]
fn test_from_uci_en_passant() {
    let keys = ZobristKeys::new();
    let board = Board::from_fen("rnbqkbnr/pp1p1ppp/8/2pPp3/8/8/PPP1PPPP/RNBQKBNR w KQkq e6 0 3", &keys);
    let mov = Move::from_uci(&board, "d5e6", &keys).unwrap();
    assert_eq!(mov.flags(), EN_PASSANT);
}

#[test]
fn test_from_uci_illegal_move_leaves_king_in_check() {
    let keys = ZobristKeys::new();
    let mut board = Board::from_fen("rnbqkbnr/pp1ppppp/8/2p5/8/2N5/PPPPPPPP/R1BQKBNR b KQkq - 1 2", &keys);
    board.stm = Side::Black;
    let result = Move::from_uci(&board, "c6e5", &keys);
    assert!(result.is_err(), "Should not allow moving a pinned piece");
}

#[test]
fn test_from_uci_invalid_format() {
    let keys = ZobristKeys::new();
    let board = Board::new(&keys);
    assert!(Move::from_uci(&board, "e2e4e5", &keys).is_err());
    assert!(Move::from_uci(&board, "e2", &keys).is_err());
    assert!(Move::from_uci(&board, "e2e4q", &keys).is_err());
}

#[test]
fn test_from_san_simple_pawn_move() {
    let keys = ZobristKeys::new();
    let board = Board::new(&keys);
    let mov = Move::from_san(&board, "e4").unwrap();
    assert_eq!(mov.uci(), "e2e4");
}

#[test]
fn test_from_san_knight_move() {
    let keys = ZobristKeys::new();
    let board = Board::new(&keys);
    let mov = Move::from_san(&board, "Nf3").unwrap();
    assert_eq!(mov.uci(), "g1f3");
}

#[test]
fn test_from_san_capture() {
    let keys = ZobristKeys::new();
    let board = Board::from_fen("rnbqkbnr/ppp1pppp/8/3p4/4P3/8/PPPP1PPP/RNBQKBNR w KQkq - 0 1", &keys);
    let mov = Move::from_san(&board, "exd5").unwrap();
    assert_eq!(mov.uci(), "e4d5");
}

#[test]
fn test_from_san_promotion_with_check() {
    let keys = ZobristKeys::new();
    let board = Board::from_fen("r3k2r/pP1p1ppp/8/8/8/8/1P1P1P1P/R3K2R w KQkq - 0 1", &keys);
    let mov = Move::from_san(&board, "bxa8=Q+").unwrap();
    assert_eq!(mov.uci(), "b7a8q");
    assert_eq!(mov.flags(), PROMO_QC);
}

#[test]
fn test_from_san_castling() {
    let keys = ZobristKeys::new();
    let board = Board::from_fen("r3k2r/pppppppp/8/8/8/8/PPPPPPPP/R3K2R w KQkq - 0 1", &keys);
    let mov_ks = Move::from_san(&board, "O-O").unwrap();
    assert_eq!(mov_ks.uci(), "e1g1");
    let mov_qs = Move::from_san(&board, "O-O-O").unwrap();
    assert_eq!(mov_qs.uci(), "e1c1");
}

#[test]
fn test_from_san_disambiguation_file() {
    let keys = ZobristKeys::new();
    let board = Board::from_fen("8/8/8/8/8/8/7K/R6R w - - 0 1", &keys);
    let mov = Move::from_san(&board, "Rhd1").unwrap();
    assert_eq!(mov.uci(), "h1d1");
    let mov2 = Move::from_san(&board, "Rad1").unwrap();
    assert_eq!(mov2.uci(), "a1d1");
}

#[test]
fn test_from_san_disambiguation_rank() {
    let keys = ZobristKeys::new();
    let board = Board::from_fen("R3k3/8/8/8/8/8/8/R3K3 w Q - 0 1", &keys);
    let mov = Move::from_san(&board, "R1a4").unwrap();
    assert_eq!(mov.uci(), "a1a4");
    let mov2 = Move::from_san(&board, "R8a5").unwrap();
    assert_eq!(mov2.uci(), "a8a5");
}

#[test]
fn test_from_san_illegal_move() {
    let keys = ZobristKeys::new();
    let board = Board::new(&keys);
    let result = Move::from_san(&board, "e5");
    assert!(result.is_err());
}
