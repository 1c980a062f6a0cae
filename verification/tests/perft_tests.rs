use eschec::board::Board;
use eschec::move_buffer::MoveBuffer;
use eschec::perft::perft;
use eschec::zobrist::ZobristKeys;

const STARTING_PERFT: &[(u8, u64)] = &[(1, 20), (2, 400), (3, 8902), (4, 197281), (5, 4865609)];

const KIWIPETE_PERFT: &[(u8, u64)] = &[(1, 48), (2, 2039), (3, 97862), (4, 4085603)];

#[test]
fn test_perft_starting_position() {
    let keys = ZobristKeys::new();
    let board = Board::new(&keys);
    for &(depth, expected) in STARTING_PERFT.iter().take(4) {
        let result = perft(&board, depth, false, &keys);
        assert_eq!(result.nodes, expected, "Perft failed at depth {}: got {} expected {}", depth, result.nodes, expected);
    }
}

#[test]
fn test_perft_kiwipete() {
    let keys = ZobristKeys::new();
    let board = Board::from_fen("r3k2r/p1ppqpb1/bn2pnp1/3PN3/1p2P3/2N2Q1p/PPPBBPPP/R3K2R w KQkq - 0 1", &keys);
    for &(depth, expected) in KIWIPETE_PERFT.iter().take(3) {
        let result = perft(&board, depth, false, &keys);
        assert_eq!(result.nodes, expected, "Perft failed at depth {}: got {} expected {}", depth, result.nodes, expected);
    }
}

#[test]
fn test_perft_position3() {
    let keys = ZobristKeys::new();
    let board = Board::from_fen("8/2p5/3p4/KP5r/1R3p1k/8/4P1P1/8 w - - 0 1", &keys);
    let expected_results = [(1, 14), (2, 191), (3, 2812), (4, 43238)];
    for &(depth, expected) in &expected_results {
        let result = perft(&board, depth, false, &keys);
        assert_eq!(result.nodes, expected, "Perft failed at depth {}: got {} expected {}", depth, result.nodes, expected);
    }
}

#[test]
fn test_perft_position4() {
    let keys = ZobristKeys::new();
    let board = Board::from_fen("r3k2r/Pppp1ppp/1b3nbN/nP6/BBP1P3/q4N2/Pp1P2PP/R2Q1RK1 w kq - 0 1", &keys);
    let expected_results = [(1, 6), (2, 264), (3, 9467)];
    for &(depth, expected) in &expected_results {
        let result = perft(&board, depth, false, &keys);
        assert_eq!(result.nodes, expected, "Perft failed at depth {}: got {} expected {}", depth, result.nodes, expected);
    }
}

#[test]
fn test_make_unmake_consistency() {
    let keys = ZobristKeys::new();
    let mut board = Board::new(&keys);
    let original_board = board;

    let mut legal_moves = MoveBuffer::new();
    board.generate_legal_moves(&mut legal_moves, false);
    for i in 0..legal_moves.len() {
        let mv = legal_moves.get(i).unwrap();
        let move_data = board.make_move(mv, &keys).unwrap();

        assert_ne!(board, original_board, "Board should change after making a move");

        board.unmake_move(&move_data).unwrap();

        assert_eq!(board, original_board, "Board should be the same after unmaking a move");
    }
}
