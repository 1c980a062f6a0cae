use eschec::board::Board;
use eschec::components::Side;
use eschec::evaluation::{eval_king_safety, eval_material, eval_mobility, eval_pawn_structure, eval_position, evaluate};
use eschec::params::{TunableParams, ISOLATED_PENALTY, MATERIAL_QUEEN, PST_START};
use eschec::pawn_tables::PawnTables;
use eschec::score::{Phase, Score};
use eschec::zobrist::ZobristKeys;

const KIWIPETE: &str = "r3k2r/p1ppqpb1/bn2pnp1/3PN3/1p2P3/2N2Q1p/PPPBBPPP/R3K2R w KQkq - 0 1";

fn zero_params() -> TunableParams {
    let mut p = TunableParams::default_params();
    p.material = [Score::new(0, 0); 5];
    p.bishop_pair_bonus = Score::new(0, 0);
    p.castling_bonus = Score::new(0, 0);
    p.pawn_shield_full = Score::new(0, 0);
    p.pawn_shield_partial = Score::new(0, 0);
    p.open_file_penalty = Score::new(0, 0);
    p.semi_open_file_penalty = Score::new(0, 0);
    p.isolated_penalty = Score::new(0, 0);
    p.doubled_penalty = Score::new(0, 0);
    p.backward_penalty = Score::new(0, 0);
    p.passed_pawn_scores = [Score::new(0, 0); 8];
    p.connected_bonus = Score::new(0, 0);
    p.rook_open_file_bonus = Score::new(0, 0);
    p.rook_semi_file_bonus = Score::new(0, 0);
    p.knight_outpost_bonus = Score::new(0, 0);
    p.mobility = [Score::new(0, 0); 5];
    p.psts = [Score::new(0, 0); 384];
    p
}

#[test]
fn start_position_is_balanced() {
    let keys = ZobristKeys::new();
    let board = Board::new(&keys);
    let params = TunableParams::default_params();
    assert!(params.check_limits());
    let tables = PawnTables::new();
    assert_eq!(evaluate(&board, &params, &tables), Score::new(0, 0));
    assert_eq!(board.evaluate_position(&params, &tables), 0);
}

#[test]
fn side_to_move_flips_the_sign() {
    let keys = ZobristKeys::new();
    let params = TunableParams::default_params();
    let tables = PawnTables::new();
    let mut board = Board::from_fen(KIWIPETE, &keys);
    let w = evaluate(&board, &params, &tables);
    board.stm = Side::Black;
    let b = evaluate(&board, &params, &tables);
    assert_eq!(w.mg, -b.mg);
    assert_eq!(w.eg, -b.eg);
}

#[test]
fn material_counts_weights() {
    let keys = ZobristKeys::new();
    let mut params = zero_params();
    params.material[4] = Score::new(900, 1000);
    params.bishop_pair_bonus = Score::new(30, 50);
    let tables = PawnTables::new();
    let board = Board::from_fen("4k3/8/8/8/8/8/8/2BQKB2 w - - 0 1", &keys);
    assert_eq!(eval_material(&board, &params), (930, 1050));
    // The queen on d1 bears on the black king's zone: five attack units, one point of danger.
    assert_eq!(evaluate(&board, &params, &tables), Score::new(931, 1050));
    assert_eq!(params.get_weight(MATERIAL_QUEEN), Score::new(900, 1000));
    assert_eq!(params.get_weight(PST_START + 384), Score::new(0, 0));
}

#[test]
fn pawn_structure_features() {
    let keys = ZobristKeys::new();
    let mut params = zero_params();
    params.isolated_penalty = Score::new(-10, -20);
    params.doubled_penalty = Score::new(-5, -7);
    let tables = PawnTables::new();
    // Two white pawns doubled and isolated on the a-file; no black pawns.
    let board = Board::from_fen("4k3/8/8/8/P7/P7/8/4K3 w - - 0 1", &keys);
    assert_eq!(eval_pawn_structure(&board, &params, &tables), (2 * (-10 - 5), 2 * (-20 - 7)));
    assert_eq!(params.get_weight(ISOLATED_PENALTY), Score::new(-10, -20));
}

#[test]
fn mobility_counts_moves() {
    let keys = ZobristKeys::new();
    let mut params = zero_params();
    params.mobility[3] = Score::new(2, 3);
    // A white rook on a1 with kings far away: fourteen moves less the e1 king's square beyond.
    let board = Board::from_fen("7k/8/8/8/8/8/8/R6K w - - 0 1", &keys);
    // The rook sees a2..a8 (7) and b1..g1 (6): 13 moves.
    assert_eq!(eval_mobility(&board, &params), (26, 39));
}

#[test]
fn position_weights_mirror_for_black() {
    let keys = ZobristKeys::new();
    let mut params = zero_params();
    // Knight table entry for a1 (white) is index 1 * 64 + 0; black's a8 maps to it too.
    params.psts[64] = Score::new(7, 9);
    let tables = PawnTables::new();
    let white = Board::from_fen("4k3/8/8/8/8/8/8/N3K3 w - - 0 1", &keys);
    assert_eq!(eval_position(&white, &params, &tables), (7, 9));
    let black = Board::from_fen("n3k3/8/8/8/8/8/8/4K3 w - - 0 1", &keys);
    assert_eq!(eval_position(&black, &params, &tables), (-7, -9));
}

#[test]
fn king_safety_rewards_castling_and_shield() {
    let keys = ZobristKeys::new();
    let mut params = zero_params();
    params.pawn_shield_full = Score::new(20, 0);
    let tables = PawnTables::new();
    let board = Board::from_fen("6k1/8/8/8/8/8/5PPP/6K1 w - - 0 1", &keys);
    assert_eq!(eval_king_safety(&board, &params, &tables), (20, 0));
}

#[test]
fn taper_blends_between_the_halves() {
    let s = Score::new(100, 200);
    assert_eq!(s.taper(Phase(0)), 100);
    assert_eq!(s.taper(Phase(256)), 200);
    assert_eq!(s.taper(Phase(128)), 150);
    let t = Score::new(-30, 10);
    assert_eq!(t.taper(Phase(64)), -20);
    assert_eq!(t.taper(Phase(1)), -29);
}
