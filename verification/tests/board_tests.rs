use eschec::bitboard::BitBoard;
use eschec::board::Board;
use eschec::components::{CastlingRights, Side, Square};
use eschec::fen::{parse_fen, parse_enpassant};
use eschec::move_info::{Move, QUIET, CAPTURE};
use eschec::notation::make_move_safely;
use eschec::score::Score;
use eschec::zobrist::ZobristKeys;

#[test]
fn test_print_bitboard() {
    let out = "0 0 0 0 0 0 0 0
0 0 0 0 0 0 0 0
0 0 0 0 0 0 0 0
0 0 0 0 0 0 0 0
0 0 0 0 1 0 0 0
0 0 0 0 0 0 0 0
0 0 0 0 0 0 0 0
0 0 0 0 0 0 0 0
";
    let num = 268_435_456;
    let b = BitBoard(num);
    assert_eq!(out, b.print_bitboard())
}

#[test]
fn test_display_square() {
    assert_eq!(Square(0).to_string(), "A1");
    assert_eq!(Square(7).to_string(), "H1");
    assert_eq!(Square(8).to_string(), "A2");
    assert_eq!(Square(8).to_string(), "A2");
    assert_eq!(Square(11).to_string(), "D2");
    assert_eq!(Square(63).to_string(), "H8");
    assert_eq!(Square(18).to_string(), "C3");
    assert_eq!(Square(26).to_string(), "C4");
    assert_eq!(Square(56).to_string(), "A8");
    assert_eq!(Square(28).to_string(), "E4");
    assert_eq!(Square(63).to_string(), "H8");
}

#[test]
fn test_en_passent_from_square() {
    assert!(Square::enpassant_from_index('A', '2').is_err());
    assert!(Square::enpassant_from_index('A', '3').is_ok());
    assert!(Square::enpassant_from_index('B', '3').is_ok());
    assert!(Square::enpassant_from_index('B', '6').is_ok());
}

#[test]
fn test_make_move() {
    let out = "0 0 0 0 0 0 0 0
0 0 0 0 0 0 0 0
0 0 0 0 0 0 0 0
0 0 0 0 0 0 0 0
0 0 0 0 0 0 0 0
1 0 0 0 0 0 0 0
0 1 1 1 1 1 1 1
1 1 1 1 1 1 1 1
";
    let keys = ZobristKeys::new();
    let mut board = Board::new(&keys);
    let mov = Move::new(8, 16, QUIET);
    assert!(board.try_move(mov, &keys).is_ok());
    let o = board.positions.get_side_bb(Side::White).print_bitboard();
    assert_eq!(out, o);
}

#[test]
fn test_parse_fen() {
    let fen = "rnbqkbnr/pppppppp/8/8/8/8/PPPPPPPP/RNBQKBNR w KQkq - 0 1";
    let board = parse_fen(fen).unwrap();
    assert_eq!(board.stm, Side::White);
    assert_eq!(board.castling_rights, CastlingRights::all());
    assert_eq!(board.enpassant_square, None);
    assert_eq!(board.halfmove_clock, 0);
    assert_eq!(board.fullmove_counter, 1);
}

#[test]
fn test_parse_enpassant() {
    let enpassant: Vec<char> = "e3".chars().collect();
    let square = parse_enpassant(&enpassant).unwrap().unwrap();
    assert_eq!(square, Square::new(20).unwrap());

    let enpassant_missing_rank: Vec<char> = "e".chars().collect();
    assert!(parse_enpassant(&enpassant_missing_rank).is_err());

    let enpassant_missing_file: Vec<char> = "".chars().collect();
    assert!(parse_enpassant(&enpassant_missing_file).is_err());

    let enpassant_disabled: Vec<char> = "-".chars().collect();
    assert_eq!(parse_enpassant(&enpassant_disabled).unwrap(), None);
}

#[test]
fn test_make_unmake_move() {
    let keys = ZobristKeys::new();
    let mut board = Board::new(&keys);
    let orig_board = board;
    let from = Square::from_str("e2").unwrap();
    let to = Square::from_str("e4").unwrap();
    let mov = Move::new(from.index() as u8, to.index() as u8, QUIET);
    let orig_mat = board.material;
    let move_data = board.make_move(mov, &keys).unwrap();
    let moved_mat = board.material;
    assert_ne!(board, orig_board);
    assert_eq!(orig_mat, moved_mat);
    board.unmake_move(&move_data).unwrap();
    let restored_mat = board.material;
    assert_eq!(board, orig_board);
    assert_eq!(orig_mat, restored_mat);
}

#[test]
fn test_make_unmake_capture() {
    let keys = ZobristKeys::new();
    let mut board = Board::from_fen("rnbqkbnr/ppp1pppp/8/3p4/4P3/8/PPPP1PPP/RNBQKBNR w KQkq - 0 1", &keys);
    let orig_board = board;
    let from = Square::from_str("e4").unwrap();
    let to = Square::from_str("d5").unwrap();
    let mov = Move::new(from.index() as u8, to.index() as u8, CAPTURE);
    let orig_mat = board.material;
    let move_data = board.make_move(mov, &keys).unwrap();
    let moved_mat = board.material;
    assert_ne!(board, orig_board);
    assert_ne!(orig_mat, moved_mat);
    board.unmake_move(&move_data).unwrap();
    let restored_mat = board.material;
    assert_eq!(board, orig_board);
    assert_eq!(orig_mat, restored_mat);
}

#[test]
fn test_initial_material_balance() {
    let keys = ZobristKeys::new();
    let mut board = Board::new(&keys);
    board.recalculate_material();
    assert_eq!(board.material[Side::White.index()], Score::new(24039, 23868));
    assert_eq!(board.material[Side::Black.index()], Score::new(24039, 23868));
}

#[test]
fn test_material_after_capture() {
    let keys = ZobristKeys::new();
    let mut board = Board::from_fen("rnbqkbnr/pppppppp/8/8/8/8/PPPPP1PP/RNBQKBNR w KQkq - 0 1", &keys);
    board.recalculate_material();
    assert_eq!(board.material[Side::White.index()], Score::new(23957, 23774));
    assert_eq!(board.material[Side::Black.index()], Score::new(24039, 23868));
}

#[test]
fn test_king_vs_king() {
    let keys = ZobristKeys::new();
    let board = Board::from_fen("4k3/8/8/8/8/8/8/4K3 w - - 0 1", &keys);
    assert!(board.is_insufficient_material());
}

#[test]
fn test_king_and_bishop_vs_king() {
    let keys = ZobristKeys::new();
    let board = Board::from_fen("4k3/8/8/8/8/8/8/4KB2 w - - 0 1", &keys);
    assert!(board.is_insufficient_material());
}

#[test]
fn test_king_and_knight_vs_king() {
    let keys = ZobristKeys::new();
    let board = Board::from_fen("4k3/8/8/8/8/8/8/4KN2 w - - 0 1", &keys);
    assert!(board.is_insufficient_material());
}

#[test]
fn test_kings_and_same_colored_bishops() {
    let keys = ZobristKeys::new();
    let board = Board::from_fen("2b1k3/8/8/8/8/8/8/2B1K3 w - - 0 1", &keys);
    assert!(board.is_insufficient_material());
}

#[test]
fn test_kings_and_different_colored_bishops() {
    let keys = ZobristKeys::new();
    let board = Board::from_fen("1b2k3/8/8/8/8/8/8/2B1K3 w - - 0 1", &keys);
    assert!(board.is_insufficient_material());
}

#[test]
fn test_sufficient_material() {
    let keys = ZobristKeys::new();
    let board = Board::from_fen("4k3/8/8/8/8/8/4P3/4KB2 w - - 0 1", &keys);
    assert!(!board.is_insufficient_material());
}

#[test]
fn test_two_knights_sufficient_material() {
    let keys = ZobristKeys::new();
    let board = Board::from_fen("4k3/8/8/8/8/8/8/4KNN1 w - - 0 1", &keys);
    assert!(!board.is_insufficient_material());
}

#[test]
fn test_two_bishops_sufficient_material() {
    let keys = ZobristKeys::new();
    let board = Board::from_fen("4k3/8/8/8/8/8/8/3BKB2 w - - 0 1", &keys);
    assert!(!board.is_insufficient_material());
}

#[test]
fn board_picture_of_start_position() {
    let keys = ZobristKeys::new();
    let board = Board::new(&keys);
    let text = board.to_string();
    let lines: Vec<&str> = text.lines().collect();
    assert_eq!(lines[0], "  +---+---+---+---+---+---+---+---+");
    assert_eq!(lines[1], "8 | \u{2656} | \u{2658} | \u{2657} | \u{2655} | \u{2654} | \u{2657} | \u{2658} | \u{2656} |");
    assert_eq!(lines[5], "6 | \u{00B7} |   | \u{00B7} |   | \u{00B7} |   | \u{00B7} |   |");
    assert_eq!(lines[15], "1 | \u{265C} | \u{265E} | \u{265D} | \u{265B} | \u{265A} | \u{265D} | \u{265E} | \u{265C} |");
    assert_eq!(lines[17], "    A   B   C   D   E   F   G   H  ");
    assert_eq!(lines[18], "");
    assert_eq!(lines[19], "Side to move: White");
    assert_eq!(lines[20], "Castling rights: KQkq");
    assert_eq!(lines[21], "En passant square: -");
    assert_eq!(lines[22], "Halfmove clock: 0");
    assert_eq!(lines[23], "Fullmove counter: 1");
    assert!(lines[24].starts_with("Material balance: W: MG: "));
}

#[test]
fn score_text_shows_both_halves() {
    assert_eq!(Score::new(-15, 230).to_string(), "MG: -15, EG: 230");
}

#[test]
fn move_fields_as_text() {
    assert_eq!(Move::new(12, 28, QUIET).to_string(), "Flags: 0000\nTo square: 28\nFrom square: 12\n");
    assert_eq!(Move::new(63, 0, CAPTURE).to_string(), "Flags: 0100\nTo square: 0\nFrom square: 63\n");
}

#[test]
fn castling_rights_do_not_come_back() {
    let keys = ZobristKeys::new();
    let mut board = Board::from_fen("r3k2r/8/8/8/8/8/8/R3K2R w KQkq - 0 1", &keys);
    let king_step = Move::from_uci(&board, "e1f1", &keys).unwrap();
    assert!(make_move_safely(&mut board, king_step, &keys));
    assert_eq!(board.castling_rights.to_string(), "kq");
    let back = Move::from_uci(&board, "a8b8", &keys).unwrap();
    assert!(make_move_safely(&mut board, back, &keys));
    assert_eq!(board.castling_rights.to_string(), "k");
    let white_back = Move::from_uci(&board, "f1e1", &keys).unwrap();
    assert!(make_move_safely(&mut board, white_back, &keys));
    assert_eq!(board.castling_rights.to_string(), "k");
}

#[test]
fn move_from_empty_square_is_not_made() {
    let keys = ZobristKeys::new();
    let mut board = Board::new(&keys);
    let before = board;
    assert!(!make_move_safely(&mut board, Move::new(20, 28, QUIET), &keys));
    assert_eq!(board, before);
    assert!(make_move_safely(&mut board, Move::new(12, 20, QUIET), &keys));
    assert_ne!(board, before);
}
