use eschec::params::TunableParams;
use eschec::pawn_tables::PawnTables;
use eschec::score::Score;
use eschec::bitboard::BitBoard;
use eschec::board::Board;
use eschec::move_buffer::MoveBuffer;
use eschec::move_info::{Move, CAPTURE, QUIET};
use eschec::move_ordering::{MainSearchPolicy, MoveScoringPolicy, KILLER_MOVE_SCORE};
use eschec::moves::Moves;
use eschec::components::Side;
use eschec::zobrist::ZobristKeys;

#[test]
fn losing_capture_outranks_killer() {
    let keys = ZobristKeys::new();
    // The white queen on d1 takes a pawn on d7 defended by the black king: a losing capture.
    let board = Board::from_fen("4k3/3p4/8/8/8/8/8/3QK3 w - - 0 1", &keys);
    let capture = Move::new(3, 51, CAPTURE);
    let quiet = Move::new(4, 5, QUIET);
    let killers = [Some(quiet), None];
    let history = [[0i32; 64]; 64];
    let c = MainSearchPolicy::score(&board, capture, &killers, None, &history);
    let q = MainSearchPolicy::score(&board, quiet, &killers, None, &history);
    assert_eq!(q, KILLER_MOVE_SCORE);
    assert!(c > q);
}

#[test]
fn game_phase_stays_in_range() {
    let keys = ZobristKeys::new();
    assert_eq!(Board::new(&keys).game_phase().0, 0);
    assert_eq!(Board::from_fen("4k3/8/8/8/8/8/8/4K3 w - - 0 1", &keys).game_phase().0, 256);
    let heavy = Board::from_fen("qqqqk3/8/8/8/8/8/8/QQQQK3 w - - 0 1", &keys).game_phase().0;
    assert!((0..=256).contains(&heavy));
    assert_eq!(heavy, 0);
}

#[test]
fn black_pawn_pushes_to_first_rank() {
    let m = Moves::default();
    assert_eq!(m.gen_black_pawn_moves()[12], BitBoard(1 << 4));
    assert_eq!(m.gen_white_pawn_moves()[52], BitBoard(1 << 60));
}

#[test]
fn king_table_is_one_step_on_board() {
    let m = Moves::default();
    let k = m.gen_king_moves(Side::White);
    assert_eq!(k[7], BitBoard((1 << 6) | (1 << 14) | (1 << 15)));
    assert_eq!(k[1], BitBoard((1 << 0) | (1 << 2) | (1 << 8) | (1 << 9) | (1 << 10)));
}

#[test]
fn promotion_to_checking_queen_counts_as_forcing() {
    let keys = ZobristKeys::new();
    let board = Board::from_fen("7k/P7/8/8/8/8/8/K7 w - - 0 1", &keys);
    let mut buf = MoveBuffer::new();
    board.generate_legal_moves(&mut buf, true);
    let ucis: Vec<String> = buf.as_slice().iter().map(|m| m.uci()).collect();
    assert!(ucis.contains(&"a7a8q".to_string()));
}

#[test]
fn large_weights_are_accepted() {
    let keys = ZobristKeys::new();
    let mut params = TunableParams::default_params();
    params.material[4] = Score::new(2_000_000_000, 2_000_000_000);
    assert!(params.check_limits());
    let board = Board::from_fen("4k3/8/8/8/8/8/8/3QK3 w - - 0 1", &keys);
    let v = board.evaluate_position(&params, &PawnTables::new());
    assert!(v > 1_900_000_000);
    let black = Board::from_fen("4k3/8/8/8/8/8/8/3QK3 b - - 0 1", &keys);
    assert!(black.evaluate_position(&params, &PawnTables::new()) < -1_900_000_000);
}
