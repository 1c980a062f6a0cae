use eschec::board::Board;
use eschec::move_buffer::MoveBuffer;
use eschec::zobrist::{calculate_hash, ZobristKeys};

const KIWIPETE: &str = "r3k2r/p1ppqpb1/bn2pnp1/3PN3/1p2P3/2N2Q1p/PPPBBPPP/R3K2R w KQkq - 0 1";

fn legal_moves(board: &Board) -> Vec<eschec::move_info::Move> {
    let mut buffer = MoveBuffer::new();
    board.generate_legal_moves(&mut buffer, false);
    buffer.as_slice().to_vec()
}

#[test]
fn different_hash() {
    let keys = ZobristKeys::new();
    let legal_ep_fen = "4k3/8/8/8/3pP3/8/8/4K3 b - e3 0 1";
    let board = Board::from_fen(legal_ep_fen, &keys);
    let hash1 = calculate_hash(&board, &keys);
    let illegal_ep_fen = "4k3/8/8/8/3pP3/8/8/4K3 w - - 0 1";
    let board = Board::from_fen(illegal_ep_fen, &keys);
    let hash2 = calculate_hash(&board, &keys);
    assert_ne!(hash1, hash2, "Both should not be the same");
}

#[test]
fn test_zobrist_hash_symmetry() {
    let keys = ZobristKeys::new();
    let mut board = Board::new(&keys);
    let original_hash = board.hash;
    for mov in legal_moves(&board) {
        let move_data = board.make_move(mov, &keys).unwrap();
        assert_ne!(board.hash, original_hash, "Zobrist hash should change after move {}", mov.uci());
        board.unmake_move(&move_data).unwrap();
        assert_eq!(board.hash, original_hash, "Zobrist hash was not restored after unmaking move {}", mov.uci());
    }
}

fn test_hash_symmetry_for_fen(fen: &str) {
    let keys = ZobristKeys::new();
    let mut board = Board::from_fen(fen, &keys);
    let original_hash = board.hash;
    assert_eq!(original_hash, calculate_hash(&board, &keys), "Initial hash calculation mismatch for FEN: {fen}");
    let moves = legal_moves(&board);
    if moves.is_empty() {
        return;
    }
    for mov in moves {
        let move_data = board.make_move(mov, &keys).unwrap();
        assert_eq!(
            board.hash,
            calculate_hash(&board, &keys),
            "Incremental hash update mismatch after move {} on FEN '{}'",
            mov.uci(),
            fen
        );
        board.unmake_move(&move_data).unwrap();
        assert_eq!(
            board.hash, original_hash,
            "Zobrist hash was not restored after unmaking move {} on FEN '{}'",
            mov.uci(),
            fen
        );
    }
}

#[test]
fn test_startpos_hash_symmetry() {
    test_hash_symmetry_for_fen("rnbqkbnr/pppppppp/8/8/8/8/PPPPPPPP/RNBQKBNR w KQkq - 0 1");
}

#[test]
fn test_kiwipete_hash_symmetry() {
    test_hash_symmetry_for_fen(KIWIPETE);
}

#[test]
fn test_en_passant_hash_symmetry() {
    test_hash_symmetry_for_fen("rnbqkbnr/pppp1ppp/8/4p3/8/8/PPPPPPPP/RNBQKBNR w KQkq - 0 1");
    test_hash_symmetry_for_fen("rnbqkbnr/pp1p1ppp/8/2pPp3/8/8/PPP1PPPP/RNBQKBNR w KQkq e6 0 3");
}

#[test]
fn test_castling_hash_symmetry() {
    test_hash_symmetry_for_fen("r3k2r/pppppppp/8/8/8/8/PPPPPPPP/R3K2R w KQkq - 0 1");
    test_hash_symmetry_for_fen("r3k2r/8/8/8/8/8/8/R3K2R b Kq - 1 1");
}

#[test]
fn test_promotion_hash_symmetry() {
    test_hash_symmetry_for_fen("r3k2r/pPpp1ppp/1b3nbN/nP6/BBP1P3/q4N2/P2P2PP/R2Q1RK1 b kq - 0 1");
}

#[test]
fn test_hash_differs_on_side_to_move() {
    let keys = ZobristKeys::new();
    let board_w = Board::from_fen("rnbqkbnr/pppppppp/8/8/8/8/PPPPPPPP/RNBQKBNR w KQkq - 0 1", &keys);
    let board_b = Board::from_fen("rnbqkbnr/pppppppp/8/8/8/8/PPPPPPPP/RNBQKBNR b KQkq - 0 1", &keys);
    assert_ne!(board_w.hash, board_b.hash, "Hash must differ based on side to move");
}

#[test]
fn test_hash_differs_on_castling_rights() {
    let keys = ZobristKeys::new();
    let board_all = Board::from_fen("r3k2r/pppppppp/8/8/8/8/PPPPPPPP/R3K2R w KQkq - 0 1", &keys);
    let board_no_wq = Board::from_fen("r3k2r/pppppppp/8/8/8/8/PPPPPPPP/R3K2R w Kk - 0 1", &keys);
    assert_ne!(board_all.hash, board_no_wq.hash, "Hash must differ based on castling rights");
}

#[test]
fn test_hash_differs_on_en_passant_square() {
    let keys = ZobristKeys::new();
    let board_ep = Board::from_fen("rnbqkbnr/pp1p1ppp/8/2pPp3/8/8/PPP1PPPP/RNBQKBNR w KQkq e6 0 3", &keys);
    let board_no_ep = Board::from_fen("rnbqkbnr/pp1p1ppp/8/2pPp3/8/8/PPP1PPPP/RNBQKBNR w KQkq - 0 3", &keys);
    assert_ne!(board_ep.hash, board_no_ep.hash, "Hash must differ based on en passant square");
}

#[test]
fn test_hash_ignores_illegal_en_passant_square() {
    let keys = ZobristKeys::new();
    let board_illegal_ep = Board::from_fen("rnbqkbnr/pppp1ppp/8/8/8/8/PPPPPPPP/RNBQKBNR b KQkq e3 0 1", &keys);
    let board_no_ep = Board::from_fen("rnbqkbnr/pppp1ppp/8/8/8/8/PPPPPPPP/RNBQKBNR b KQkq - 0 1", &keys);
    assert_eq!(
        board_illegal_ep.hash, board_no_ep.hash,
        "Hash should be identical when FEN's EP square is physically impossible"
    );
}

#[test]
fn null_move_keeps_hash_consistent() {
    let keys = ZobristKeys::new();
    for fen in [KIWIPETE, "4k3/8/8/8/3pP3/8/8/4K3 b - e3 0 1"] {
        let mut board = Board::from_fen(fen, &keys);
        assert_eq!(board.hash, calculate_hash(&board, &keys));
        board.make_null_move(&keys);
        assert_eq!(board.hash, calculate_hash(&board, &keys));
        assert!(board.enpassant_square.is_none());
        board.make_null_move(&keys);
        assert_eq!(board.hash, calculate_hash(&board, &keys));
    }
}
