use eschec::bitboard::BitBoard;
use eschec::board::Board;
use eschec::components::{Piece, Side, Square};
use eschec::move_gen::get_attackers_to;
use eschec::move_info::{Move, CAPTURE, EN_PASSANT, KING_CASTLE, PROMO_QC};
use eschec::zobrist::ZobristKeys;

fn see(board: &Board, mv: Move) -> (i32, Vec<Piece>) {
    let from_sq = mv.from_sq();
    let to_sq = mv.to_sq();
    let mut side_to_move = board.stm;
    let mut capture_sequence = Vec::new();
    let mut occupied = board.positions.get_occupied_bb();
    let mut gain = [0i32; 32];
    let mut final_gain_idx = 0;
    let attacker_piece = board.get_piece_at(from_sq).expect("an attacker on the origin");
    let victim_piece = if mv.is_enpassant() {
        Piece::Pawn
    } else {
        match board.get_piece_at(to_sq) {
            Some(p) => p,
            None => return (0, capture_sequence),
        }
    };
    gain[final_gain_idx] = victim_piece.victim_score();
    final_gain_idx += 1;
    gain[final_gain_idx] = attacker_piece.victim_score() - gain[final_gain_idx - 1];
    occupied.capture(from_sq.index());
    if mv.is_enpassant() {
        let captured = if side_to_move == Side::White { to_sq.index() - 8 } else { to_sq.index() + 8 };
        occupied.capture(captured);
    } else {
        occupied.capture(to_sq.index());
    }
    capture_sequence.push(victim_piece);
    capture_sequence.push(attacker_piece);
    side_to_move = side_to_move.flip();
    loop {
        final_gain_idx += 1;
        if final_gain_idx >= gain.len() {
            break;
        }
        let attackers_bb = get_attackers_to(board, to_sq, side_to_move, occupied);
        let mut lva_piece = None;
        let mut lva_from_sq = None;
        for piece in Piece::all_pieces() {
            let lva_candidates = attackers_bb.and(*board.positions.get_piece_bb(side_to_move, piece));
            if lva_candidates.any() {
                lva_piece = Some(piece);
                lva_from_sq = Square::new(lva_candidates.lsb().unwrap() as usize);
                break;
            }
        }
        if let (Some(piece), Some(from)) = (lva_piece, lva_from_sq) {
            gain[final_gain_idx] = piece.victim_score() - gain[final_gain_idx - 1];
            occupied.capture(from.index());
            capture_sequence.push(piece);
            side_to_move = side_to_move.flip();
        } else {
            break;
        }
    }
    final_gain_idx -= 1;
    while final_gain_idx > 1 {
        final_gain_idx -= 1;
        gain[final_gain_idx - 1] = gain[final_gain_idx - 1].min(-gain[final_gain_idx]);
    }
    (gain[0], capture_sequence)
}

#[test]
fn test_bb_lsb() {
    let bb = BitBoard(0b001000);
    let expected_lsb = 3;
    let lsb = bb.lsb();
    assert!(lsb.is_some(), "BitBoard::lsb() expected to return Some(x)");
    assert_eq!(lsb, Some(expected_lsb), "BitBoard::lsb() does not match expectations");
}

#[test]
fn test_fn_sync() {
    let keys = ZobristKeys::new();
    let fen = "1k1r4/1pp4p/p7/4p3/8/P5P1/1PP4P/2K1R3 w - - 0 1";
    let board = Board::from_fen(fen, &keys);
    let mv = Move::from_uci(&board, "e1e5", &keys).unwrap();
    let (free_see1, _seq) = see(&board, mv);
    let see1 = board.static_exchange_evaluation(mv);
    assert_eq!(see1, free_see1, "Free function and member function should return same val for pos #1");
    let fen = "1k1r3q/1ppn3p/p4b2/4p3/8/P2N2P1/1PP1R1BP/2K1Q3 w - - 0 1";
    let board = Board::from_fen(fen, &keys);
    let mv = Move::from_uci(&board, "d3e5", &keys).unwrap();
    let (free_see2, _seq) = see(&board, mv);
    let see2 = board.static_exchange_evaluation(mv);
    assert_eq!(see2, free_see2, "Free function and member function should return same val for pos #2");
}

#[test]
fn test_short_see_sequence() {
    let keys = ZobristKeys::new();
    let fen = "1k1r4/1pp4p/p7/4p3/8/P5P1/1PP4P/2K1R3 w - - 0 1";
    let board = Board::from_fen(fen, &keys);
    let mv = Move::from_uci(&board, "e1e5", &keys).unwrap();
    let (_see, seq) = see(&board, mv);
    let expected_seq = vec![Piece::Pawn, Piece::Rook];
    assert_eq!(seq, expected_seq);
}

#[test]
fn test_long_see_sequence() {
    let keys = ZobristKeys::new();
    let fen = "1k1r3q/1ppn3p/p4b2/4p3/8/P2N2P1/1PP1R1BP/2K1Q3 w - - 0 1";
    let board = Board::from_fen(fen, &keys);
    let mv = Move::from_uci(&board, "d3e5", &keys).unwrap();
    let (_see, seq) = see(&board, mv);
    let expected_seq = vec![Piece::Pawn, Piece::Knight, Piece::Knight, Piece::Rook, Piece::Bishop, Piece::Queen, Piece::Queen];
    assert_eq!(seq, expected_seq);
}

#[test]
fn see_values_on_known_exchanges() {
    let keys = ZobristKeys::new();
    let board = Board::from_fen("1k1r4/1pp4p/p7/4p3/8/P5P1/1PP4P/2K1R3 w - - 0 1", &keys);
    let mv = Move::from_uci(&board, "e1e5", &keys).unwrap();
    // The rook wins the pawn and nothing recaptures it.
    assert_eq!(board.static_exchange_evaluation(mv), 100);
    let board = Board::from_fen("4k3/8/3p4/4p3/8/8/8/4R1K1 w - - 0 1", &keys);
    let mv = Move::from_uci(&board, "e1e5", &keys).unwrap();
    // The pawn on d6 recaptures: the rook is lost for a pawn.
    assert_eq!(board.static_exchange_evaluation(mv), 100 - 500);
    let quiet = Move::from_uci(&board, "e1e2", &keys).unwrap();
    assert_eq!(board.static_exchange_evaluation(quiet), 0);
}

#[test]
fn test_black_kingside_castle_moves_rook_correctly() {
    let keys = ZobristKeys::new();
    let fen = "r3k2r/pppppppp/8/8/8/8/PPPPPPPP/R3K2R b KQkq - 1 1";
    let mut board = Board::from_fen(fen, &keys);
    let castle_move = Move::new(60, 62, KING_CASTLE);
    board.make_move(castle_move, &keys).unwrap();
    assert!(board.get_piece_at(Square::from_str("e8").unwrap()).is_none(), "King should have moved from e8");
    assert_eq!(board.get_piece_at(Square::from_str("g8").unwrap()), Some(Piece::King), "King should be on g8");
    assert!(board.get_piece_at(Square::from_str("h8").unwrap()).is_none(), "Rook should have moved from h8");
    assert_eq!(board.get_piece_at(Square::from_str("f8").unwrap()), Some(Piece::Rook), "Rook should be on f8");
    let expected_fen_pieces = "r4rk1/pppppppp/8/8/8/8/PPPPPPPP/R3K2R";
    assert_eq!(board.positions.to_fen_pieces(), expected_fen_pieces);
}

#[test]
fn test_en_passant_make_unmake_symmetry() {
    let keys = ZobristKeys::new();
    let fen = "rnbqkbnr/ppp1p1pp/8/3pPp2/8/8/PPPP1PPP/RNBQKBNR w KQkq d6 0 3";
    let mut board = Board::from_fen(fen, &keys);
    let original_board = board;
    let ep_move = Move::new(
        Square::from_str("e5").unwrap().index() as u8,
        Square::from_str("d6").unwrap().index() as u8,
        EN_PASSANT,
    );
    let move_data = board.make_move(ep_move, &keys).unwrap();
    assert!(board.get_piece_at(Square::from_str("d5").unwrap()).is_none(), "Black pawn on d5 should have been captured");
    board.unmake_move(&move_data).unwrap();
    assert_eq!(board.material, original_board.material, "Scores are not restored perfectly");
    assert_eq!(board, original_board, "Board state was not perfectly restored after unmaking en passant move");
}

#[test]
fn test_rook_capture_removes_opponent_castling_rights() {
    let keys = ZobristKeys::new();
    let fen = "r3k2r/8/8/8/8/8/8/R3K2R w KQkq - 0 1";
    let mut board = Board::from_fen(fen, &keys);
    let capture_move = Move::new(
        Square::from_str("a1").unwrap().index() as u8,
        Square::from_str("a8").unwrap().index() as u8,
        CAPTURE,
    );
    board.make_move(capture_move, &keys).unwrap();
    assert!(
        !board.castling_rights.can_castle(Side::Black, false),
        "Black should lose queenside castling rights after rook on a8 is captured"
    );
    assert!(board.castling_rights.can_castle(Side::Black, true), "Black should still have kingside castling rights");
}

#[test]
fn test_promotion_to_queen_with_capture() {
    let keys = ZobristKeys::new();
    let fen = "r3k2r/1Ppppppp/8/8/8/8/1P2PPPP/R3K2R w KQkq - 0 1";
    let mut board = Board::from_fen(fen, &keys);
    let original_board = board;
    let promo_capture = Move::new(
        Square::from_str("b7").unwrap().index() as u8,
        Square::from_str("a8").unwrap().index() as u8,
        PROMO_QC,
    );
    let move_data = board.make_move(promo_capture, &keys).unwrap();
    assert_eq!(board.get_piece_at(Square::from_str("a8").unwrap()), Some(Piece::Queen));
    assert_eq!(board.positions.get_piece_bb(Side::White, Piece::Queen).pop_count(), 1);
    assert_eq!(board.positions.get_piece_bb(Side::White, Piece::Pawn).pop_count(), 5);
    board.unmake_move(&move_data).unwrap();
    assert_eq!(board, original_board, "Board not restored after unmaking promotion with capture");
}
