use eschec::alpha_beta::{AlphaBetaSearch, LmrTable};
use eschec::board::{Board, START_FEN};
use eschec::move_buffer::MoveBuffer;
use eschec::move_info::Move;
use eschec::move_picker::MovePicker;
use eschec::params::TunableParams;
use eschec::pawn_tables::PawnTables;
use eschec::search::{
    adjust_score_for_ply, adjust_score_from_ply, has_non_pawn_material, RepetitionTable, SearchConfig, SearchContext, SearchEngine,
    SearchLimits, SearchResult, SearchStats, SearchTables, MATE_SCORE,
};
use eschec::tt::{ScoreTypes, TranspositionEntry, TranspositionTable};
use eschec::zobrist::ZobristKeys;

const KIWIPETE: &str = "r3k2r/p1ppqpb1/bn2pnp1/3PN3/1p2P3/2N2Q1p/PPPBBPPP/R3K2R w KQkq - 0 1";

fn lmr_table() -> LmrTable {
    let mut values = vec![0u8; 65536];
    for d in 1..256usize {
        for m in 1..256usize {
            let base = 0.20f32 + ((d as f32).ln() * (m as f32).ln()) / 3.35f32;
            values[d * 256 + m] = base as u8;
        }
    }
    LmrTable::from_values(values).expect("a full table")
}

fn engine() -> AlphaBetaSearch {
    AlphaBetaSearch::new(TunableParams::default_params(), PawnTables::new(), ZobristKeys::new(), lmr_table())
}

fn legal(board: &Board) -> MoveBuffer {
    let mut moves = MoveBuffer::new();
    board.generate_legal_moves(&mut moves, false);
    moves
}

#[test]
fn test_move_picker_basic() {
    let keys = ZobristKeys::new();
    let board = Board::from_fen(START_FEN, &keys);
    let moves = legal(&board);
    let original_count = moves.len();
    let mut picker = MovePicker::new(&board, moves.as_slice(), &[None; 2], None, &[[0; 64]; 64]);
    let mut picked = Vec::new();
    while let Some(mv) = picker.next_best() {
        picked.push(mv);
    }
    assert_eq!(picked.len(), original_count);
    let mut seen = std::collections::HashSet::new();
    for mv in picked {
        assert!(seen.insert(mv), "Duplicate move picked!");
    }
}

#[test]
fn test_move_picker_ordering() {
    let keys = ZobristKeys::new();
    let board = Board::from_fen("r3k2r/p1ppqpb1/bn2pnp1/3PN3/1p2P3/2N2Q1p/PPPBBPPP/R3K2R w KQkq - 0 1", &keys);
    let moves = legal(&board);
    let mut picker = MovePicker::new(&board, moves.as_slice(), &[None; 2], None, &[[0; 64]; 64]);
    let first = picker.next_best().unwrap();
    let second = picker.next_best().unwrap();
    assert!(first.is_capture() || second.is_capture(), "Expected captures to be picked first");
}

#[test]
fn test_move_picker_with_tt_move() {
    let keys = ZobristKeys::new();
    let board = Board::from_fen(START_FEN, &keys);
    let moves = legal(&board);
    let tt_move = moves.first().unwrap();
    let mut picker = MovePicker::new(&board, moves.as_slice(), &[None; 2], Some(tt_move), &[[0; 64]; 64]);
    let first_picked = picker.next_best().unwrap();
    assert_eq!(first_picked, tt_move, "TT move should be picked first");
}

#[test]
fn test_move_picker_remaining() {
    let keys = ZobristKeys::new();
    let board = Board::from_fen(START_FEN, &keys);
    let moves = legal(&board);
    let total = moves.len();
    let mut picker = MovePicker::new(&board, moves.as_slice(), &[None; 2], None, &[[0; 64]; 64]);
    assert_eq!(picker.remaining(), total);
    picker.next_best();
    assert_eq!(picker.remaining(), total - 1);
    picker.next_best();
    assert_eq!(picker.remaining(), total - 2);
}

#[test]
fn test_move_picker_peek() {
    let keys = ZobristKeys::new();
    let board = Board::from_fen(START_FEN, &keys);
    let moves = legal(&board);
    let picker = MovePicker::new(&board, moves.as_slice(), &[None; 2], None, &[[0; 64]; 64]);
    let peeked_score = picker.peek_best_score();
    assert!(peeked_score.is_some());
    assert_eq!(picker.remaining(), moves.len());
}

#[test]
fn test_move_picker_iterator() {
    let keys = ZobristKeys::new();
    let board = Board::from_fen(START_FEN, &keys);
    let moves = legal(&board);
    let total = moves.len();
    let mut picker = MovePicker::new(&board, moves.as_slice(), &[None; 2], None, &[[0; 64]; 64]);
    let mut collected: Vec<Move> = Vec::new();
    while let Some(m) = picker.next_best() {
        collected.push(m);
    }
    assert_eq!(collected.len(), total);
}

#[test]
fn move_picker_gives_scores_in_falling_order() {
    let keys = ZobristKeys::new();
    let board = Board::from_fen(KIWIPETE, &keys);
    let moves = legal(&board);
    let mut picker = MovePicker::new(&board, moves.as_slice(), &[None; 2], None, &[[0; 64]; 64]);
    let mut last = i32::MAX;
    while let Some(score) = picker.peek_best_score() {
        assert!(score <= last);
        last = score;
        if picker.next_best().is_none() {
            break;
        }
    }
}

#[test]
fn null_move_pruning_saves_nodes() {
    let lim = SearchLimits::depth(6);
    let mut search_with_null = engine().with_limits(lim);
    let mut search_without_null = engine().with_limits(lim);
    assert!(search_without_null.get_config().enable_nmp);
    let conf = SearchConfig { enable_nmp: false, emit_info: false, ..Default::default() };
    search_without_null = search_without_null.with_config(conf).ok().expect("Should be able to set conf");
    assert!(!search_without_null.get_config().enable_nmp);
    let keys = ZobristKeys::new();
    let board = Board::from_fen(KIWIPETE, &keys);
    let result_with = search_with_null.find_best_move(&board);
    let result_without = search_without_null.find_best_move(&board);
    assert_ne!(result_with.nodes_searched, result_without.nodes_searched, "Node counts should be different");
    assert!(result_with.nodes_searched < result_without.nodes_searched, "NMP should reduce node count");
}

#[test]
fn search_finds_mate_in_one() {
    let keys = ZobristKeys::new();
    let board = Board::from_fen("6k1/5ppp/8/8/8/8/8/R5K1 w - - 0 1", &keys);
    let mut search = engine().with_limits(SearchLimits::depth(3));
    let result: SearchResult = search.find_best_move(&board);
    assert_eq!(result.best_move.unwrap().uci(), "a1a8");
    assert!(result.score > 19_000);
    assert_eq!(result.depth, 3);
    assert_eq!(result.info.len(), 3);
    assert!(result.info[0].starts_with("info depth 1 score cp "));
}

#[test]
fn search_reports_mate_and_stalemate_without_moves() {
    let keys = ZobristKeys::new();
    let mated = Board::from_fen("R5k1/5ppp/8/8/8/8/8/6K1 b - - 0 1", &keys);
    let mut search = engine().with_limits(SearchLimits::depth(2));
    let r = search.find_best_move(&mated);
    assert!(r.best_move.is_none());
    assert!(r.is_mate);
    assert_eq!(r.score, -MATE_SCORE);
    assert_eq!(r.mate_in, Some(0));
    let stalemate = Board::from_fen("7k/5Q2/6K1/8/8/8/8/8 b - - 0 1", &keys);
    let r = search.find_best_move(&stalemate);
    assert!(r.best_move.is_none());
    assert!(!r.is_mate);
    assert_eq!(r.score, 0);
}

#[test]
fn search_respects_node_limit() {
    let keys = ZobristKeys::new();
    let board = Board::from_fen(KIWIPETE, &keys);
    let mut search = engine().with_limits(SearchLimits::nodes(2000));
    let r = search.find_best_move(&board);
    assert!(r.best_move.is_some());
    assert!(r.nodes_searched <= 2100);
}

#[test]
fn mate_scores_move_with_the_ply() {
    assert_eq!(adjust_score_for_ply(MATE_SCORE, 3), MATE_SCORE - 3);
    assert_eq!(adjust_score_for_ply(-MATE_SCORE, 3), -MATE_SCORE + 3);
    assert_eq!(adjust_score_for_ply(150, 3), 150);
    assert_eq!(adjust_score_from_ply(MATE_SCORE - 3, 3), MATE_SCORE);
    assert_eq!(adjust_score_for_ply(i32::MIN, 5), -MATE_SCORE);
    assert_eq!(adjust_score_from_ply(i32::MAX, 5), i32::MAX);
    for s in [-MATE_SCORE + 10, -500, 0, 42, MATE_SCORE - 10] {
        assert_eq!(adjust_score_for_ply(adjust_score_from_ply(s, 7), 7), s);
    }
}

#[test]
fn non_pawn_material_is_seen() {
    let keys = ZobristKeys::new();
    assert!(has_non_pawn_material(&Board::new(&keys)));
    assert!(!has_non_pawn_material(&Board::from_fen("4k3/pppp4/8/8/8/8/PPPP4/4K3 w - - 0 1", &keys)));
}

#[test]
fn search_context_children() {
    let root = SearchContext::root();
    assert_eq!(root.ply, 0);
    assert!(root.is_pv_node);
    let child = root.new_child(false);
    assert_eq!(child.ply, 1);
    assert!(!child.is_pv_node);
}

#[test]
fn limits_set_one_bound() {
    assert_eq!(SearchLimits::depth(4).max_depth, Some(4));
    assert_eq!(SearchLimits::time(1500).max_time, Some(1500));
    assert_eq!(SearchLimits::nodes(99).max_nodes, Some(99));
    let inf = SearchLimits::infinite();
    assert!(inf.max_depth.is_none() && inf.max_time.is_none() && inf.max_nodes.is_none());
}

#[test]
fn stats_combine_and_speed() {
    let mut a = SearchStats::new();
    a.nodes_searched = 3000;
    a.time_elapsed = 2;
    a.tt_hits = u64::MAX;
    a.calculate_nps();
    assert_eq!(a.nps, 1_500_000);
    let mut b = SearchStats::new();
    b.nodes_searched = 1000;
    b.time_elapsed = 2;
    b.tt_hits = 5;
    b.depth_reached = 7;
    let c = a.combine(b);
    assert_eq!(c.nodes_searched, 4000);
    assert_eq!(c.nps, 1_000_000);
    assert_eq!(c.tt_hits, u64::MAX);
    assert_eq!(c.depth_reached, 7);
    let r = SearchResult {
        best_move: None,
        score: 0,
        depth: 0,
        nodes_searched: 500,
        time_taken: 0,
        pv: None,
        is_mate: false,
        mate_in: None,
        info: Vec::new(),
    };
    assert_eq!(r.nps(), 500_000);
}

#[test]
fn repetition_table_counts_and_restores() {
    let mut t = RepetitionTable::new();
    t.push(7);
    t.push(9);
    t.push(7);
    assert_eq!(t.count_repetitions(7), 2);
    assert_eq!(t.count_repetitions(9), 1);
    t.push(11);
    t.pop();
    assert_eq!(t.len(), 3);
    assert_eq!(t.count_repetitions(11), 0);
    t.clear();
    assert_eq!(t.count_repetitions(7), 0);
    for i in 0..200u64 {
        t.push(i);
    }
    assert_eq!(t.len(), 128);
}

#[test]
fn killers_and_history_update() {
    let mut tables = SearchTables::new();
    let a = Move::new(12, 28, 0);
    let b = Move::new(6, 21, 0);
    tables.update_killers(3, a);
    tables.update_killers(3, b);
    assert_eq!(tables.killer_moves[3][0], Some(b));
    assert_eq!(tables.killer_moves[3][1], Some(a));
    tables.update_killers(300, a);
    tables.update_history(a, 5);
    tables.update_history(a, 3);
    assert_eq!(tables.history[12][28], 34);
    tables.decay_history();
    assert_eq!(tables.history[12][28], 17);
    tables.clear();
    assert_eq!(tables.killer_moves[3][0], None);
    assert_eq!(tables.history[12][28], 17);
}

#[test]
fn transposition_table_stores_and_probes() {
    let mut tt = TranspositionTable::new(1);
    let hash: u64 = 0x1234_5678_9abc_def0;
    let mv = Move::new(12, 28, 0);
    assert!(tt.probe(hash).is_none());
    let e = TranspositionEntry::new(hash, mv, 77, 5, ScoreTypes::LowerBound, 3);
    tt.store(e);
    let got = tt.probe(hash).expect("stored entry");
    assert_eq!(got, e);
    assert_eq!(got.get_score(), 77);
    assert_eq!(got.get_depth(), 5);
    assert_eq!(got.get_age(), 3);
    assert_eq!(got.get_best_move(), mv);
    assert_eq!(got.get_score_type(), ScoreTypes::LowerBound);
    assert!(got.matches(hash));
    // A shallower result for the same key does not replace a deeper one.
    tt.store(TranspositionEntry::new(hash, mv, -5, 2, ScoreTypes::Exact, 3));
    assert_eq!(tt.probe(hash).unwrap().get_depth(), 5);
    // A deeper one does.
    tt.store(TranspositionEntry::new(hash, mv, -5, 9, ScoreTypes::Exact, 3));
    assert_eq!(tt.probe(hash).unwrap().get_score_type(), ScoreTypes::Exact);
    assert!(tt.hash_full() <= 1000);
    tt.clear();
    assert!(tt.probe(hash).is_none());
    assert!(tt.change_size(4096).is_err());
    assert!(tt.change_size(2).is_ok());
}

#[test]
fn entry_packs_score_and_flags() {
    let e = TranspositionEntry::new(0xFFFF_FFFF_0000_0001, Move(0), 70_000, 1, ScoreTypes::UpperBound, 200);
    assert_eq!(e.key, 1);
    assert_eq!(e.get_score(), 70_000i32 as i16 as i32);
    assert_eq!(e.get_score_type(), ScoreTypes::UpperBound);
    assert_eq!(e.get_age(), (200u8 << 2) >> 2);
}

#[test]
fn engine_limits_through_the_trait() {
    let keys = ZobristKeys::new();
    let mut search = engine();
    search.set_depth(2);
    search.set_nodes(50_000);
    search.set_time(10_000);
    let limits = search.get_limits();
    assert_eq!(limits.max_depth, Some(2));
    assert_eq!(limits.max_nodes, Some(50_000));
    assert_eq!(limits.max_time, Some(10_000));
    let board = Board::from_fen("6k1/5ppp/8/8/8/8/8/R5K1 w - - 0 1", &keys);
    let r = search.search(&board);
    assert_eq!(r.best_move.unwrap().uci(), "a1a8");
    assert_eq!(r.depth, 2);
    search.stop();
    search.clear();
    let stats = search.get_stats();
    assert_eq!(stats.nodes_searched, r.nodes_searched);
    assert_eq!(search.get_params().material[0].mg, TunableParams::default_params().material[0].mg);
}

#[test]
fn defaults_start_empty() {
    let stats = SearchStats::default();
    assert_eq!(stats.nodes_searched, 0);
    assert_eq!(stats.cutoff_at_move[255], 0);
    let tables = SearchTables::default();
    assert!(tables.killer_moves[0][0].is_none());
    assert_eq!(tables.history[12][28], 0);
    let reps = RepetitionTable::default();
    assert_eq!(reps.len(), 0);
    let keys = ZobristKeys::default();
    assert_eq!(keys.black_to_move, 0);
    assert_eq!(keys.pieces[1][5][63], 0);
    let masks = PawnTables::default();
    assert_eq!(masks.connected_pawn_masks[10].0, 0);
}

#[test]
fn stats_after_clear_are_zero_but_nodes_stay() {
    let keys = ZobristKeys::new();
    let board = Board::from_fen(KIWIPETE, &keys);
    let mut search = engine().with_limits(SearchLimits::depth(2));
    let r = search.find_best_move(&board);
    search.clear();
    let stats = search.get_stats();
    assert_eq!(stats.nodes_searched, r.nodes_searched);
    assert_eq!(stats.hash_full, 0);
    assert_eq!(stats.tt_hits, 0);
}
