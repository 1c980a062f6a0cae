use vstd::prelude::*;
use std::time::Instant;
use crate::board::Board;
use crate::components::{Piece, Side};
use crate::move_buffer::MoveBuffer;
use crate::move_gen::{generate_legal_moves, CapturesOnly, pawns_placed_check};
use crate::move_info::Move;
use crate::move_ordering::{sort_moves, see_checked, MainSearchPolicy};
use crate::move_picker::MovePicker;
use crate::notation::make_move_safely;
use crate::params::{TunableParams, params_ok};
use crate::pawn_tables::{PawnTables, tables_ok};
use crate::perft::{clock_now, micros_since};
use crate::search::{
    SearchContext, SearchEngine, SearchConfig, SearchLimits, SearchResult, SearchStats, SearchTables, RepetitionTable,
    adjust_score_for_ply, sat_sum, nps_of, adjust_score_from_ply, has_non_pawn_material, sat_plus, MAX_PLY, MATE_SCORE,
    MATE_THRESHOLD, STALEMATE_SCORE,
};
use crate::text::{u64_to_text, i64_to_text};
use crate::tt::{ScoreTypes, TranspositionEntry, TranspositionTable, TtError, Cluster, hash_fill};
use crate::zobrist::ZobristKeys;
use crate::evaluation::position_value;

verus! {

broadcast use vstd::seq_lib::group_to_multiset_ensures;

/// Half-width of the first aspiration window.
pub const ASP_START_WINDOW: i32 = 48;

/// Widest aspiration window.
pub const ASP_MAX_WINDOW: i32 = 4096;

/// Margin beyond the captured piece's value under which quiescence skips a capture.
pub const DELTA_MARGIN: i32 = 700;

/// Exchange value under which quiescence skips a capture.
pub const SEE_THRESHOLD: i32 = -100;

/// Late-move reductions by depth and move index, 256 of each.
pub struct LmrTable {
    reductions: Vec<u8>,
}

impl LmrTable {
    /// One reduction per depth and move index below 256.
    pub closed spec fn wf(&self) -> bool {
        self.reductions@.len() == 65536
    }

    /// The reduction at `depth` and `index`.
    pub closed spec fn at(&self, depth: int, index: int) -> int {
        self.reductions@[depth * 256 + index] as int
    }

    /// The table of `values`, depth major; `None` unless there are 65536 of them.
    pub fn from_values(values: Vec<u8>) -> (r: Option<Self>)
        ensures
            r is Some <==> values@.len() == 65536,
            r matches Some(t) ==> t.wf() && forall|d: int, i: int|
                0 <= d < 256 && 0 <= i < 256 ==> #[trigger] t.at(d, i) == values@[d * 256 + i],
    {
        if values.len() == 65536 {
            Some(LmrTable { reductions: values })
        } else {
            None
        }
    }

    /// The reduction at `depth` and `index`.
    pub fn get(&self, depth: u16, index: usize) -> (r: u16)
        requires
            self.wf(),
            depth < 256,
            index < 256,
        ensures
            r == self.at(depth as int, index as int),
    {
        self.reductions[depth as usize * 256 + index] as u16
    }
}

/// Alpha-beta search with iterative deepening, a transposition table, null-move pruning,
/// late-move reductions, aspiration windows and quiescence.
pub struct AlphaBetaSearch {
    nodes_searched: u64,
    search_cycle: u8,
    config: SearchConfig,
    limits: SearchLimits,
    params: TunableParams,
    tables: PawnTables,
    keys: ZobristKeys,
    lmr: LmrTable,
    search_tables: SearchTables,
    tt: TranspositionTable,
    /// Hashes of the positions from the root to the current node.
    pub repetition_table: RepetitionTable,
    in_progress: bool,
    start_time: Instant,
    stats: SearchStats,
}

/// `x + 1`, capped at the largest `u64`.
fn bump(x: u64) -> (r: u64)
    ensures
        r == sat_sum(x, 1),
{
    sat_plus(x, 1)
}

/// The line reported after each completed depth.
pub open spec fn info_text(depth: nat, score: int, nodes: nat, nps: nat, pv: Seq<char>) -> Seq<char> {
    "info depth "@ + crate::text::decimal_text(depth) + " score cp "@ + (if score < 0 {
        seq!['-'] + crate::text::decimal_text((-score) as nat)
    } else {
        crate::text::decimal_text(score as nat)
    }) + " nodes "@ + crate::text::decimal_text(nodes) + " nps "@ + crate::text::decimal_text(nps) + " pv "@ + pv
}

/// The line reported after each completed depth: depth, score in centipawns, nodes, nodes
/// per second and the best move.
pub fn info_line(depth: u16, score: i32, nodes: u64, nps: u64, best_move: Option<Move>) -> (r: String)
    ensures
        r@ == info_text(
            depth as nat,
            score as int,
            nodes as nat,
            nps as nat,
            match best_move {
                Some(m) => crate::move_info::uci_text(m.0),
                None => Seq::empty(),
            },
        ),
{
    let mut s = String::new();
    s.append("info depth ");
    s.append(u64_to_text(depth as u64).as_str());
    s.append(" score cp ");
    s.append(i64_to_text(score as i64).as_str());
    s.append(" nodes ");
    s.append(u64_to_text(nodes).as_str());
    s.append(" nps ");
    s.append(u64_to_text(nps).as_str());
    s.append(" pv ");
    match best_move {
        Some(m) => s.append(m.uci().as_str()),
        None => {},
    }
    proof {
        assert(s@ =~= info_text(
            depth as nat,
            score as int,
            nodes as nat,
            nps as nat,
            match best_move {
                Some(m) => crate::move_info::uci_text(m.0),
                None => Seq::empty(),
            },
        ));
    }
    s
}

impl SearchEngine for AlphaBetaSearch {
    open spec fn ready(&self) -> bool {
        self.wf()
    }

    open spec fn config_view(&self) -> SearchConfig {
        self.config_of()
    }

    open spec fn limits_view(&self) -> SearchLimits {
        self.limits_of()
    }

    /// Searches `board` for the best move: `find_best_move`.
    fn search(&mut self, board: &Board) -> (r: SearchResult)
        ensures
            r.best_move matches Some(m) ==> board.positions.piece_bb(board.stm, Piece::King) != 0 ==> crate::move_gen::board_fits(*board, m.0),
            r.best_move is None ==> r.depth == 0 && r.is_mate == crate::board::in_check_spec(*board, board.stm) && r.score == (if r.is_mate {
                -20_000i32
            } else {
                0i32
            }),
            r.best_move is Some ==> i32::MIN < r.score,
            r.best_move is None ==> r.pv is None && r.mate_in == (if r.is_mate { Some(0i32) } else { None::<i32> }),
    {
        self.find_best_move(board)
    }

    /// The evaluation weights.
    fn get_params(&self) -> (r: TunableParams)
        ensures
            r == self.params_of(),
    {
        self.params
    }

    /// Marks the search as no longer running, so that a search in progress winds down.
    fn stop(&mut self)
        ensures
            *final(self) == old(self).stopped(),
    {
        self.in_progress = false;
    }

    /// The configuration.
    fn get_config(&self) -> (r: SearchConfig)
        ensures
            r == self.config_of(),
    {
        self.config
    }

    /// The limits.
    fn get_limits(&self) -> (r: SearchLimits)
        ensures
            r == self.limits_of(),
    {
        self.limits
    }

    /// Sets the depth limit.
    fn set_depth(&mut self, depth: u8)
        ensures
            final(self).limits_of() == (SearchLimits { max_depth: Some(depth), ..old(self).limits_of() }),
            final(self).config_of() == old(self).config_of(),
    {
        self.limits.max_depth = Some(depth);
    }

    /// Sets the time limit in milliseconds.
    fn set_time(&mut self, time_ms: u64)
        ensures
            final(self).limits_of() == (SearchLimits { max_time: Some(time_ms), ..old(self).limits_of() }),
            final(self).config_of() == old(self).config_of(),
    {
        self.limits.max_time = Some(time_ms);
    }

    /// Sets the node limit.
    fn set_nodes(&mut self, nodes: u64)
        ensures
            final(self).limits_of() == (SearchLimits { max_nodes: Some(nodes), ..old(self).limits_of() }),
            final(self).config_of() == old(self).config_of(),
    {
        self.limits.max_nodes = Some(nodes);
    }

    /// Forgets what earlier searches learned: the table, the killers, the positions seen, the
    /// counters; the history stays.
    fn clear(&mut self)
        ensures
            final(self).table_of().len() == old(self).table_of().len(),
            forall|i: int| 0 <= i < final(self).table_of().len() ==> #[trigger] final(self).table_of()[i].is_empty(),
            final(self).cycle_of() == 0,
            final(self).positions_seen() == Seq::<u64>::empty(),
            forall|p: int, k: int| 0 <= p < 256 && 0 <= k < 2 ==> #[trigger] final(self).search_tables_of().killer_moves[p][k] is None,
            final(self).search_tables_of().history == old(self).search_tables_of().history,
            final(self).stats_of().fresh(),
            final(self).nodes_of() == old(self).nodes_of(),
            final(self).running() == old(self).running(),
            final(self).params_of() == old(self).params_of(),
    {
        self.tt.clear();
        self.search_cycle = 0;
        self.repetition_table.clear();
        self.search_tables.clear();
        self.stats = SearchStats::new();
    }

    /// The counters, with the nodes, the time so far, the table use and the speed filled in.
    fn get_stats(&mut self) -> (r: SearchStats)
        ensures
            r == final(self).stats_of(),
            r == (SearchStats {
                nodes_searched: old(self).nodes_of(),
                time_elapsed: r.time_elapsed,
                hash_full: hash_fill(old(self).table_of()) as u16,
                nps: nps_of(old(self).nodes_of() as int, r.time_elapsed as int) as u64,
                ..old(self).stats_of()
            }),
            final(self).table_of() == old(self).table_of(),
            final(self).nodes_of() == old(self).nodes_of(),
            final(self).running() == old(self).running(),
    {
        self.stats.nodes_searched = self.nodes_searched;
        self.stats.time_elapsed = micros_since(&self.start_time) / 1000;
        self.stats.hash_full = self.tt.hash_full();
        self.stats.calculate_nps();
        self.stats
    }

}

impl AlphaBetaSearch {
    /// Its tables are well formed and its weights and masks are within their bounds.
    pub closed spec fn wf(&self) -> bool {
        &&& self.tt.wf()
        &&& self.repetition_table.wf()
        &&& self.lmr.wf()
        &&& params_ok(self.params)
        &&& tables_ok(self.tables)
    }

    /// The configuration.
    pub closed spec fn config_of(&self) -> SearchConfig {
        self.config
    }

    /// The limits.
    pub closed spec fn limits_of(&self) -> SearchLimits {
        self.limits
    }

    /// The evaluation weights.
    pub closed spec fn params_of(&self) -> TunableParams {
        self.params
    }

    /// Hashes of the positions on the current path.
    pub closed spec fn positions_seen(&self) -> Seq<u64> {
        self.repetition_table@
    }

    /// A search is running with neither a time limit nor a node limit already reached, so
    /// that it is not told to stop.
    spec fn runs_freely(&self) -> bool {
        &&& self.in_progress
        &&& self.limits.max_time is None
        &&& !(self.limits.max_nodes matches Some(l) && self.nodes_searched >= l)
    }

    /// The position is drawn by the fifty-move rule or by having occurred twice on the path.
    spec fn draw_at(&self, board: Board) -> bool {
        board.halfmove_clock >= 100 || crate::search::occurrences(self.repetition_table@, board.hash) >= 2
    }

    /// The transposition table holds no entry for `hash`.
    spec fn table_misses(&self, hash: u64) -> bool {
        crate::tt::find(self.tt@[self.tt.slot(hash)].entries@, hash as u32) is None
    }

    /// A search is running.
    pub closed spec fn running(&self) -> bool {
        self.in_progress
    }

    /// The same search, marked as not running.
    pub closed spec fn stopped(self) -> Self {
        AlphaBetaSearch { in_progress: false, ..self }
    }

    /// The transposition table's clusters.
    pub closed spec fn table_of(&self) -> Seq<Cluster> {
        self.tt@
    }

    /// The counters as kept so far.
    pub closed spec fn stats_of(&self) -> SearchStats {
        self.stats
    }

    /// The killer moves and history.
    pub closed spec fn search_tables_of(&self) -> SearchTables {
        self.search_tables
    }

    /// Nodes visited by the last search.
    pub closed spec fn nodes_of(&self) -> u64 {
        self.nodes_searched
    }

    /// Number of searches run, counted modulo 256.
    pub closed spec fn cycle_of(&self) -> u8 {
        self.search_cycle
    }

    /// A search that evaluates with `params` and `tables`, hashes with `keys` and reduces
    /// late moves by `lmr`; the default configuration, no limits, a 16 megabyte table.
    pub fn new(params: TunableParams, tables: PawnTables, keys: ZobristKeys, lmr: LmrTable) -> (r: Self)
        requires
            params_ok(params),
            tables_ok(tables),
            lmr.wf(),
        ensures
            r.wf(),
            r.config_of() == (SearchConfig {
                enable_nmp: true,
                enable_asp: true,
                enable_lmr: true,
                emit_info: true,
                collect_stats: true,
                hash_size_mb: 16,
            }),
            r.limits_of() == SearchLimits::infinite_spec(),
    {
        AlphaBetaSearch {
            nodes_searched: 0,
            search_cycle: 0,
            config: SearchConfig::default(),
            limits: SearchLimits::infinite(),
            params,
            tables,
            keys,
            lmr,
            search_tables: SearchTables::new(),
            tt: TranspositionTable::new(16),
            repetition_table: RepetitionTable::new(),
            in_progress: false,
            start_time: clock_now(),
            stats: SearchStats::new(),
        }
    }

    /// Takes `config`, resizing the table when its size changes; refuses a size over the
    /// largest allowed.
    pub fn with_config(self, config: SearchConfig) -> (r: Result<Self, TtError>)
        requires
            self.wf(),
        ensures
            (r is Err) <==> (config.hash_size_mb != self.config_of().hash_size_mb && config.hash_size_mb > 1024),
            r matches Ok(s) ==> s.wf() && s.config_of() == config && s.limits_of() == self.limits_of(),
    {
        let mut s = self;
        if s.config.hash_size_mb != config.hash_size_mb {
            match s.tt.change_size(config.hash_size_mb) {
                Ok(()) => {},
                Err(e) => {
                    return Err(e);
                },
            }
        }
        s.config = config;
        Ok(s)
    }

    /// Takes `limits`.
    pub fn with_limits(self, limits: SearchLimits) -> (r: Self)
        requires
            self.wf(),
        ensures
            r.wf(),
            r.limits_of() == limits,
            r.config_of() == self.config_of(),
    {
        let mut s = self;
        s.limits = limits;
        s
    }

    /// Whether the search must stop: it is not running, its time is spent, or its node limit
    /// is reached.
    fn should_stop(&self) -> (r: bool)
        ensures
            !self.in_progress ==> r,
            (self.limits.max_nodes matches Some(l) && self.nodes_searched >= l) ==> r,
            r ==> !self.in_progress || (self.limits.max_nodes matches Some(l) && self.nodes_searched >= l)
                || self.limits.max_time is Some,
    {
        if !self.in_progress {
            return true;
        }
        if let Some(max_time) = self.limits.max_time {
            if micros_since(&self.start_time) / 1000 >= max_time {
                return true;
            }
        }
        if let Some(l) = self.limits.max_nodes {
            if self.nodes_searched >= l {
                return true;
            }
        }
        false
    }

    /// The position is drawn by the fifty-move rule or has occurred twice on the path.
    fn is_draw(&self, board: &Board) -> (r: bool)
        requires
            self.repetition_table.wf(),
        ensures
            r == (board.halfmove_clock >= 100 || crate::search::occurrences(self.repetition_table@, board.hash) >= 2),
    {
        board.halfmove_clock >= 100 || self.repetition_table.count_repetitions(board.hash) >= 2
    }

    /// The late-move reduction for `depth` and `move_index`, at most `depth - 1`.
    fn lmr_reduction(&self, depth: u16, move_index: usize) -> (r: u16)
        requires
            self.lmr.wf(),
            1 <= depth < 256,
            move_index < 256,
        ensures
            r == (if self.lmr.at(depth as int, move_index as int) < depth - 1 {
                self.lmr.at(depth as int, move_index as int)
            } else {
                depth - 1
            }),
    {
        let base = self.lmr.get(depth, move_index);
        if base < depth - 1 {
            base
        } else {
            depth - 1
        }
    }

    /// Whether a late quiet move that neither checks nor escapes check is searched reduced.
    fn should_reduce(&self, depth: u16, move_index: usize, mv: Move, in_check: bool, gives_check: bool) -> (r: bool)
        ensures
            r == (self.config.enable_lmr && depth >= 3 && move_index >= 3 && mv.0 & crate::move_info::CAPTURE == 0
                && mv.0 & crate::move_info::PROMO == 0 && !in_check && !gives_check),
    {
        self.config.enable_lmr && depth >= 3 && move_index >= 3 && !mv.is_capture() && !mv.is_promotion() && !in_check
            && !gives_check
    }

    /// The legal moves of the board, none when a pawn of the side to move stands on its last
    /// rank.
    fn legal_moves(board: &Board, captures_only: bool) -> (r: MoveBuffer)
        requires
            board.wf(),
        ensures
            r.wf(),
            board.positions.piece_bb(board.stm, Piece::King) != 0 ==> forall|i: int|
                0 <= i < r@.len() ==> crate::move_gen::board_fits(*board, #[trigger] r@[i].0),
    {
        let mut moves = MoveBuffer::new();
        if pawns_placed_check(board) {
            if captures_only {
                generate_legal_moves::<CapturesOnly>(board, &mut moves);
            } else {
                board.generate_legal_moves(&mut moves, false);
            }
        }
        moves
    }
}

// The recursive search.
impl AlphaBetaSearch {
    /// The score of `board` for the side to move, searched `depth` plies deep within the
    /// window `alpha..beta`, failing hard: a score of `beta` or more returns `beta`; one of
    /// `alpha` or less returns `alpha`, save where the table, a draw, a mate or a stop
    /// decides.
    fn alpha_beta(&mut self, board: &Board, context: SearchContext, depth: u16, alpha0: i32, beta0: i32) -> (r: i32)
        requires
            old(self).wf(),
            board.wf(),
            context.ply <= MAX_PLY + 1,
            depth <= 255,
            i32::MIN < alpha0,
            i32::MIN < beta0,
            depth > 0 && context.ply < MAX_PLY ==> alpha0 < beta0,
        ensures
            final(self).wf(),
            final(self).config == old(self).config,
            final(self).limits == old(self).limits,
            i32::MIN < r,
            !old(self).in_progress ==> r == 0 && *final(self) == *old(self),
            old(self).runs_freely() && context.ply >= MAX_PLY ==> r == position_value(*board, old(self).params)
                && *final(self) == *old(self),
            old(self).runs_freely() && context.ply < MAX_PLY && depth > 0 && !old(self).draw_at(*board)
                && old(self).table_misses(board.hash) && (depth < 5 || !non_null_ok(*board) || !old(self).config.enable_nmp)
                && board.positions.piece_bb(board.stm, Piece::King) != 0 && no_move_fits(*board) ==> r == (if crate::board::in_check_spec(
                *board,
                board.stm,
            ) {
                -MATE_SCORE + context.ply
            } else {
                STALEMATE_SCORE as int
            }),
        decreases MAX_PLY + 2 - context.ply, 1int,
    {
        let mut alpha = alpha0;
        let mut beta = beta0;
        if self.should_stop() {
            return 0;
        }
        if context.ply >= MAX_PLY {
            return board.evaluate_position(&self.params, &self.tables);
        }
        if depth == 0 {
            return self.quiescence_search(board, context, alpha, beta);
        }
        self.nodes_searched = bump(self.nodes_searched);
        let ply = context.ply;
        let original_alpha = alpha;
        let is_in_check = board.is_in_check(board.stm);
        let current_hash = board.hash;
        if self.is_draw(board) {
            if self.config.collect_stats {
                self.stats.draw_returns = bump(self.stats.draw_returns);
            }
            return 0;
        }
        let mut tt_move = Move(0);
        if self.config.collect_stats {
            self.stats.tt_probes = bump(self.stats.tt_probes);
        }
        if let Some(entry) = self.tt.probe(current_hash) {
            if entry.matches(current_hash) {
                if self.config.collect_stats {
                    self.stats.tt_hits = bump(self.stats.tt_hits);
                }
                tt_move = entry.get_best_move();
                if entry.get_depth() as u16 >= depth {
                    let score = adjust_score_for_ply(entry.get_score(), ply);
                    match entry.get_score_type() {
                        ScoreTypes::Exact => {
                            if self.config.collect_stats {
                                self.stats.tt_cutoffs = bump(self.stats.tt_cutoffs);
                                self.stats.tt_exact_returns = bump(self.stats.tt_exact_returns);
                            }
                            return score;
                        },
                        ScoreTypes::LowerBound => {
                            if score > alpha {
                                alpha = score;
                            }
                            if alpha >= beta {
                                if self.config.collect_stats {
                                    self.stats.tt_cutoffs = bump(self.stats.tt_cutoffs);
                                }
                                return beta;
                            }
                        },
                        ScoreTypes::UpperBound => {
                            if score < beta {
                                beta = score;
                            }
                            if alpha >= beta {
                                if self.config.collect_stats {
                                    self.stats.tt_cutoffs = bump(self.stats.tt_cutoffs);
                                }
                                return alpha;
                            }
                        },
                    }
                }
            }
        }
        let child_context = context.new_child(false);
        if let Some(nmp_score) = self.try_null_move_pruning(board, child_context, depth, beta) {
            return nmp_score;
        }
        let legal_moves = Self::legal_moves(board, false);
        if legal_moves.is_empty() {
            if self.config.collect_stats {
                self.stats.mate_returns = bump(self.stats.mate_returns);
            }
            return if board.is_in_check(board.stm) {
                -MATE_SCORE + ply as i32
            } else {
                STALEMATE_SCORE
            };
        }
        proof {
            if board.positions.piece_bb(board.stm, Piece::King) != 0 {
                assert(crate::move_gen::board_fits(*board, legal_moves@[0].0));
            }
            assert(!(old(self).runs_freely() && context.ply < MAX_PLY && depth > 0 && !old(self).draw_at(*board)
                && old(self).table_misses(board.hash) && (depth < 5 || !non_null_ok(*board) || !old(self).config.enable_nmp)
                && board.positions.piece_bb(board.stm, Piece::King) != 0 && no_move_fits(*board)));
        }
        if self.config.collect_stats {
            self.stats.main_search_nodes = bump(self.stats.main_search_nodes);
        }
        let mut best_move_this_node = match legal_moves.first() {
            Some(m) => m,
            None => Move(0),
        };
        let mut best_score: i32 = i32::MIN + 1;
        let killers = self.search_tables.killer_moves[ply];
        proof {
            legal_moves.lemma_wf_len();
        }
        let mut picker = MovePicker::new(
            board,
            legal_moves.as_slice(),
            &killers,
            Some(tt_move),
            &self.search_tables.history,
        );
        let mut move_index: usize = 0;
        loop
            invariant
                !(old(self).runs_freely() && context.ply < MAX_PLY && depth > 0 && !old(self).draw_at(*board)
                    && old(self).table_misses(board.hash) && (depth < 5 || !non_null_ok(*board) || !old(self).config.enable_nmp)
                    && board.positions.piece_bb(board.stm, Piece::King) != 0 && no_move_fits(*board)),
                old(self).in_progress,
                self.wf(),
                self.config == old(self).config,
                self.limits == old(self).limits,
                board.wf(),
                picker.wf(),
                picker.moves().len() <= 256,
                move_index <= picker.current(),
                ply == context.ply,
                ply < MAX_PLY,
                1 <= depth <= 255,
                i32::MIN < alpha < beta,
                i32::MIN < best_score,
                i32::MIN < original_alpha,
            ensures
                self.wf(),
                self.config == old(self).config,
                self.limits == old(self).limits,
                i32::MIN < best_score,
                i32::MIN < alpha,
            decreases picker.moves().len() - picker.current(),
        {
            let mv = match picker.next_best() {
                Some(m) => m,
                None => {
                    break;
                },
            };
            let mut board_copy = *board;
            if !make_move_safely(&mut board_copy, mv, &self.keys) {
                continue;
            }
            self.repetition_table.push(board_copy.hash);
            let is_pv_node = move_index == 0;
            let child_is_pv = context.is_pv_node && is_pv_node;
            let mut child_context = context.new_child(child_is_pv);
            let mut extension: u16 = 0;
            let move_gives_check = board_copy.is_in_check(board_copy.stm);
            if is_in_check {
                extension = 1;
            } else {
                if board.get_piece_at(mv.from_sq()) == Some(Piece::Pawn) {
                    let rank = mv.to_sq().row();
                    let is_threatening_promo = if board.stm == Side::White {
                        rank == 6
                    } else {
                        rank == 1
                    };
                    if is_threatening_promo {
                        extension = 1;
                    }
                }
            }
            let new_depth = depth + extension;
            let mut score: i32;
            if is_pv_node {
                score = self.pv_search(&board_copy, child_context, new_depth, alpha, beta);
            } else if self.should_reduce(depth, move_index, mv, is_in_check, move_gives_check) {
                let mut reduction = self.lmr_reduction(depth, move_index);
                if context.is_pv_node && reduction > 0 {
                    reduction = reduction - 1;
                }
                let reduced_depth = (depth - 1) - reduction;
                if self.config.collect_stats {
                    self.stats.lmr_attempts = bump(self.stats.lmr_attempts);
                }
                let s = self.alpha_beta(&board_copy, child_context, reduced_depth, -alpha - 1, -alpha);
                score = -s;
                if score > alpha {
                    if self.config.collect_stats {
                        self.stats.lmr_research = bump(self.stats.lmr_research);
                    }
                    child_context.is_pv_node = true;
                    score = self.zw_search(&board_copy, child_context, new_depth, alpha, beta);
                }
            } else {
                score = self.zw_search(&board_copy, child_context, new_depth, alpha, beta);
            }
            self.repetition_table.pop();
            if self.should_stop() {
                return 0;
            }
            if score > best_score {
                best_score = score;
                best_move_this_node = mv;
            }
            if score > alpha {
                alpha = score;
            }
            if alpha >= beta {
                if self.config.collect_stats {
                    if move_index < MAX_PLY {
                        self.stats.cutoff_at_move[move_index] = bump(self.stats.cutoff_at_move[move_index]);
                    }
                    self.stats.beta_cutoffs_main = bump(self.stats.beta_cutoffs_main);
                    self.stats.pruned_nodes = bump(self.stats.pruned_nodes);
                }
                if !mv.is_capture() && ply < MAX_PLY {
                    self.search_tables.update_killers(ply, mv);
                    self.search_tables.update_history(mv, depth);
                }
                let entry_to_store = TranspositionEntry::new(
                    current_hash,
                    best_move_this_node,
                    adjust_score_from_ply(beta, ply),
                    depth as u8,
                    ScoreTypes::LowerBound,
                    self.search_cycle,
                );
                self.tt.store(entry_to_store);
                return beta;
            }
            move_index = move_index + 1;
        }
        let score_type = if best_score <= original_alpha {
            if self.config.collect_stats {
                self.stats.fail_lows = bump(self.stats.fail_lows);
            }
            ScoreTypes::UpperBound
        } else {
            if self.config.collect_stats {
                self.stats.exact_scores = bump(self.stats.exact_scores);
            }
            ScoreTypes::Exact
        };
        let entry_to_store = TranspositionEntry::new(
            current_hash,
            best_move_this_node,
            adjust_score_from_ply(best_score, ply),
            depth as u8,
            score_type,
            self.search_cycle,
        );
        self.tt.store(entry_to_store);
        alpha
    }

    /// Searches captures only until the position is quiet, standing pat on the evaluation
    /// when not in check; fails hard like the main search.
    fn quiescence_search(&mut self, board: &Board, context: SearchContext, alpha0: i32, beta: i32) -> (r: i32)
        requires
            old(self).wf(),
            board.wf(),
            context.ply <= MAX_PLY + 1,
            i32::MIN < alpha0,
            i32::MIN < beta,
        ensures
            final(self).wf(),
            final(self).config == old(self).config,
            final(self).limits == old(self).limits,
            i32::MIN < r,
            !old(self).in_progress ==> r == 0 && *final(self) == *old(self),
            old(self).runs_freely() && context.ply > MAX_PLY ==> r == position_value(*board, old(self).params)
                && *final(self) == *old(self),
        decreases MAX_PLY + 2 - context.ply, 0int,
    {
        let mut alpha = alpha0;
        if self.should_stop() {
            return 0;
        }
        if context.ply > MAX_PLY {
            return board.evaluate_position(&self.params, &self.tables);
        }
        self.nodes_searched = bump(self.nodes_searched);
        if self.is_draw(board) {
            if self.config.collect_stats {
                self.stats.draw_returns = bump(self.stats.draw_returns);
            }
            return 0;
        }
        let is_in_check = board.is_in_check(board.stm);
        let stand_pat_score: i32;
        if !is_in_check {
            stand_pat_score = board.evaluate_position(&self.params, &self.tables);
            if stand_pat_score >= beta {
                if self.config.collect_stats {
                    self.stats.standpat_returns = bump(self.stats.standpat_returns);
                    self.stats.pruned_nodes = bump(self.stats.pruned_nodes);
                }
                return beta;
            }
            if stand_pat_score > alpha {
                alpha = stand_pat_score;
            }
        } else {
            stand_pat_score = i32::MIN;
        }
        let legal_moves = Self::legal_moves(board, true);
        if is_in_check && legal_moves.is_empty() {
            if self.config.collect_stats {
                self.stats.mate_returns = bump(self.stats.mate_returns);
            }
            return adjust_score_for_ply(-MATE_SCORE, context.ply);
        }
        if self.config.collect_stats {
            self.stats.qsearch_nodes = bump(self.stats.qsearch_nodes);
        }
        proof {
            legal_moves.lemma_wf_len();
        }
        let mut picker = MovePicker::new_qsearch(board, legal_moves.as_slice());
        loop
            invariant
                old(self).in_progress,
                self.wf(),
                self.config == old(self).config,
                self.limits == old(self).limits,
                board.wf(),
                picker.wf(),
                picker.moves().len() <= 256,
                context.ply <= MAX_PLY,
                i32::MIN < alpha,
                i32::MIN < beta,
            ensures
                self.wf(),
                self.config == old(self).config,
                self.limits == old(self).limits,
                i32::MIN < alpha,
            decreases picker.moves().len() - picker.current(),
        {
            let mv = match picker.next_best() {
                Some(m) => m,
                None => {
                    break;
                },
            };
            if !is_in_check {
                if mv.is_capture() {
                    let captured_piece_value: i32 = if mv.is_enpassant() {
                        Piece::Pawn.victim_score()
                    } else {
                        match board.get_piece_at(mv.to_sq()) {
                            Some(p) => p.victim_score(),
                            None => 0,
                        }
                    };
                    let margin: i32 = if mv.is_promotion() { DELTA_MARGIN + 200 } else { DELTA_MARGIN };
                    if (stand_pat_score as i64) + (captured_piece_value as i64) + (margin as i64) < alpha as i64 {
                        if self.config.collect_stats {
                            self.stats.delta_pruning_cutoffs = bump(self.stats.delta_pruning_cutoffs);
                            self.stats.pruned_nodes = bump(self.stats.pruned_nodes);
                        }
                        continue;
                    }
                }
                if see_checked(board, mv) < SEE_THRESHOLD {
                    if self.config.collect_stats {
                        self.stats.see_pruning_cutoffs = bump(self.stats.see_pruning_cutoffs);
                        self.stats.pruned_nodes = bump(self.stats.pruned_nodes);
                    }
                    continue;
                }
            }
            let mut board_copy = *board;
            if !make_move_safely(&mut board_copy, mv, &self.keys) {
                continue;
            }
            self.repetition_table.push(board_copy.hash);
            let child_context = context.new_child(context.is_pv_node);
            let s = self.quiescence_search(&board_copy, child_context, -beta, -alpha);
            let score = -s;
            self.repetition_table.pop();
            if score >= beta {
                if self.config.collect_stats {
                    self.stats.beta_cutoffs_qs = bump(self.stats.beta_cutoffs_qs);
                    self.stats.pruned_nodes = bump(self.stats.pruned_nodes);
                }
                return beta;
            }
            if score > alpha {
                alpha = score;
            }
        }
        alpha
    }

    /// The full-window search of the first move.
    fn pv_search(&mut self, board: &Board, context: SearchContext, depth: u16, alpha: i32, beta: i32) -> (r: i32)
        requires
            old(self).wf(),
            board.wf(),
            1 <= context.ply <= MAX_PLY,
            1 <= depth <= 256,
            i32::MIN < alpha < beta,
        ensures
            final(self).wf(),
            final(self).config == old(self).config,
            final(self).limits == old(self).limits,
            i32::MIN < r,
            !old(self).in_progress ==> r == 0 && *final(self) == *old(self),
            old(self).runs_freely() && context.ply >= MAX_PLY ==> r == -position_value(*board, old(self).params)
                && *final(self) == *old(self),
        decreases MAX_PLY + 2 - context.ply, 2int,
    {
        let s = self.alpha_beta(board, context, depth - 1, -beta, -alpha);
        -s
    }

    /// The zero-window search of a later move, searched again with the full window when it
    /// lands inside it.
    fn zw_search(&mut self, board: &Board, context: SearchContext, depth: u16, alpha: i32, beta: i32) -> (r: i32)
        requires
            old(self).wf(),
            board.wf(),
            1 <= context.ply <= MAX_PLY,
            1 <= depth <= 256,
            i32::MIN < alpha < beta,
        ensures
            final(self).wf(),
            final(self).config == old(self).config,
            final(self).limits == old(self).limits,
            i32::MIN < r,
            !old(self).in_progress ==> r == 0 && *final(self) == *old(self),
            old(self).runs_freely() && context.ply >= MAX_PLY ==> r == -position_value(*board, old(self).params)
                && *final(self) == *old(self),
        decreases MAX_PLY + 2 - context.ply, 2int,
    {
        let s = self.alpha_beta(board, context, depth - 1, -alpha - 1, -alpha);
        let mut score = -s;
        if score > alpha && score < beta {
            let re_search_child_context = context.new_child(true);
            let t = self.alpha_beta(board, re_search_child_context, depth - 1, -beta, -alpha);
            score = -t;
        }
        score
    }

    /// Passes the move and searches shallower with a window just at `beta`: when even that
    /// holds `beta`, the node is cut to `beta`. Only from depth 5 on, off the root, out of
    /// check and with a piece besides pawns and the king.
    fn try_null_move_pruning(&mut self, board: &Board, context: SearchContext, depth: u16, beta: i32) -> (r: Option<i32>)
        requires
            old(self).wf(),
            board.wf(),
            1 <= context.ply <= MAX_PLY,
            1 <= depth <= 255,
            i32::MIN + 1 < beta,
        ensures
            final(self).wf(),
            final(self).config == old(self).config,
            final(self).limits == old(self).limits,
            r matches Some(v) ==> v == beta,
            r is Some ==> old(self).config_of().enable_nmp && depth >= 5 && non_null_ok(*board),
            !old(self).config.enable_nmp || depth < 5 || !non_null_ok(*board) ==> r is None && *final(self) == *old(self),
            old(self).config.enable_nmp && depth >= 5 && non_null_ok(*board) && !old(self).in_progress && beta <= 0 ==> r
                == Some(beta),
        decreases MAX_PLY + 2 - context.ply, 2int,
    {
        if !self.config.enable_nmp {
            return None;
        }
        if depth < 5 || context.ply == 0 || board.is_in_check(board.stm) || !has_non_pawn_material(board) {
            return None;
        }
        let null_reduction: u16 = if depth >= 6 { 4 } else { 2 };
        let null_depth = depth - null_reduction;
        if self.config.collect_stats {
            self.stats.null_move_attempts = bump(self.stats.null_move_attempts);
        }
        let mut null_board = *board;
        null_board.make_null_move(&self.keys);
        let child_context = context.new_child(false);
        let s = self.alpha_beta(&null_board, child_context, null_depth, -beta, -beta + 1);
        let score = -s;
        if score >= beta {
            if self.config.collect_stats {
                self.stats.null_move_cutoffs = bump(self.stats.null_move_cutoffs);
                self.stats.pruned_nodes = bump(self.stats.pruned_nodes);
            }
            Some(beta)
        } else {
            None
        }
    }
}

/// No move at all fits `b`: the side to move has no piece that can move by the rules of how
/// pieces move, its own king's safety aside.
pub open spec fn no_move_fits(b: Board) -> bool {
    forall|m: u16| !#[trigger] crate::move_gen::board_fits(b, m)
}

/// A null move may be tried on `b`: its side to move is not in check and has a piece besides
/// pawns and its king.
pub open spec fn non_null_ok(b: Board) -> bool {
    !crate::board::in_check_spec(b, b.stm) && crate::search::non_pawn_material(b)
}

// The root.
impl AlphaBetaSearch {
    /// One search of every root move within `alpha_base..beta_base` at `depth`: the best move
    /// and its score; the first move and the lowest score when none was searched.
    fn root_search_attempt(
        &mut self,
        board: &Board,
        depth: u16,
        alpha_base: i32,
        beta_base: i32,
        legal_moves: &MoveBuffer,
    ) -> (r: (Option<Move>, i32))
        requires
            old(self).wf(),
            board.wf(),
            1 <= depth <= 255,
            i32::MIN < alpha_base < beta_base,
        ensures
            final(self).wf(),
            final(self).config == old(self).config,
            final(self).limits == old(self).limits,
            i32::MIN < r.1,
            r.0 matches Some(m) ==> legal_moves@.contains(m),
            legal_moves@.len() > 0 ==> r.0 is Some,
    {
        let mut alpha = alpha_base;
        let beta = beta_base;
        let mut local_best_move: Option<Move> = legal_moves.first();
        let mut local_best_score: i32 = i32::MIN + 1;
        let n = legal_moves.len();
        let mut i: usize = 0;
        while i < n
            invariant_except_break
                i32::MIN < alpha < beta,
            invariant
                self.wf(),
                self.config == old(self).config,
                self.limits == old(self).limits,
                board.wf(),
                1 <= depth <= 255,
                n == legal_moves@.len(),
                i <= n,
                beta == beta_base,
                i32::MIN < local_best_score,
                local_best_move matches Some(m) ==> legal_moves@.contains(m),
                n > 0 ==> local_best_move is Some,
            ensures
                self.wf(),
                self.config == old(self).config,
                self.limits == old(self).limits,
                i32::MIN < local_best_score,
                local_best_move matches Some(m) ==> legal_moves@.contains(m),
                n > 0 ==> local_best_move is Some,
            decreases n - i,
        {
            if self.should_stop() {
                break;
            }
            let mv = match legal_moves.get(i) {
                Some(m) => m,
                None => Move(0),
            };
            i = i + 1;
            let mut board_copy = *board;
            if !make_move_safely(&mut board_copy, mv, &self.keys) {
                continue;
            }
            self.repetition_table.push(board_copy.hash);
            let root_child_context = SearchContext { ply: 1, is_pv_node: true };
            let s = self.alpha_beta(&board_copy, root_child_context, depth - 1, -beta, -alpha);
            let score = -s;
            self.repetition_table.pop();
            if self.should_stop() {
                break;
            }
            if score > local_best_score {
                local_best_score = score;
                local_best_move = Some(mv);
            }
            if local_best_score > alpha {
                alpha = local_best_score;
            }
            if alpha >= beta {
                break;
            }
        }
        (local_best_move, local_best_score)
    }

    /// Searches the root moves at `depth`, ordered with the previous best move first, in a
    /// window around the previous score that widens on each failure, at most four times; the
    /// full window when aspiration is off, at depth 1, or near mate scores.
    fn root_search_with_aspiration(
        &mut self,
        board: &Board,
        depth: u16,
        legal_moves: &mut MoveBuffer,
        prev_best_move: Option<Move>,
        prev_score: i32,
    ) -> (r: (Option<Move>, i32))
        requires
            old(self).wf(),
            board.wf(),
            old(legal_moves).wf(),
            1 <= depth <= 255,
            i32::MIN < prev_score,
        ensures
            final(self).wf(),
            final(self).config == old(self).config,
            final(self).limits == old(self).limits,
            final(legal_moves).wf(),
            final(legal_moves)@.to_multiset() == old(legal_moves)@.to_multiset(),
            final(legal_moves)@.len() == old(legal_moves)@.len(),
            i32::MIN < r.1,
            r.0 matches Some(m) ==> final(legal_moves)@.contains(m),
            final(legal_moves)@.len() > 0 ==> r.0 is Some,
            !old(self).in_progress ==> r == (if final(legal_moves)@.len() > 0 {
                Some(final(legal_moves)@[0])
            } else {
                None
            }, (i32::MIN + 1) as i32),
    {
        let killers = self.search_tables.killer_moves[depth as usize];
        sort_moves::<MainSearchPolicy>(board, legal_moves, &killers, prev_best_move, &self.search_tables.history);
        let use_asp = self.config.enable_asp && depth > 1 && (prev_score as i64) < (MATE_THRESHOLD - ASP_MAX_WINDOW) as i64
            && -(prev_score as i64) < (MATE_THRESHOLD - ASP_MAX_WINDOW) as i64;
        let mut window: i32 = ASP_START_WINDOW;
        let mut alpha_base: i32 = if use_asp { prev_score - window } else { i32::MIN + 1 };
        let mut beta_base: i32 = if use_asp { prev_score + window } else { i32::MAX };
        let mut tries: usize = 0;
        loop
            invariant
                !old(self).in_progress ==> *self == *old(self) && legal_moves@.len() == old(legal_moves)@.len(),
                self.wf(),
                self.config == old(self).config,
                self.limits == old(self).limits,
                board.wf(),
                legal_moves.wf(),
                legal_moves@.to_multiset() == old(legal_moves)@.to_multiset(),
                legal_moves@.len() == old(legal_moves)@.len(),
                1 <= depth <= 255,
                tries <= 4,
                ASP_START_WINDOW <= window <= ASP_MAX_WINDOW,
                use_asp ==> -15_648 < prev_score < 15_648,
                use_asp ==> prev_score - ASP_MAX_WINDOW <= alpha_base < prev_score < beta_base <= prev_score + ASP_MAX_WINDOW,
                !use_asp ==> alpha_base == i32::MIN + 1 && beta_base == i32::MAX,
            decreases 5 - tries,
        {
            if self.should_stop() {
                return (legal_moves.first(), i32::MIN + 1);
            }
            let (best_move, best_score) = self.root_search_attempt(board, depth, alpha_base, beta_base, legal_moves);
            if !use_asp {
                return (best_move, best_score);
            }
            if tries >= 4 {
                return (best_move, best_score);
            }
            if best_score <= alpha_base {
                if self.config.collect_stats {
                    self.stats.asp_fail_low = bump(self.stats.asp_fail_low);
                    self.stats.asp_research = bump(self.stats.asp_research);
                }
                tries = tries + 1;
                window = if window < ASP_MAX_WINDOW / 2 { window * 2 } else { ASP_MAX_WINDOW };
                alpha_base = prev_score - window;
            } else if best_score >= beta_base {
                if self.config.collect_stats {
                    self.stats.asp_fail_high = bump(self.stats.asp_fail_high);
                    self.stats.asp_research = bump(self.stats.asp_research);
                }
                tries = tries + 1;
                window = if window < ASP_MAX_WINDOW / 2 { window * 2 } else { ASP_MAX_WINDOW };
                beta_base = prev_score + window;
            } else {
                return (best_move, best_score);
            }
        }
    }
}

impl AlphaBetaSearch {
    /// Resets the node count, drops the killers, halves the history and the counters.
    fn prepare_for_search(&mut self)
        requires
            old(self).wf(),
        ensures
            final(self).wf(),
            final(self).nodes_searched == 0,
            final(self).config == old(self).config,
            final(self).limits == old(self).limits,
    {
        self.nodes_searched = 0;
        self.search_tables.clear();
        self.search_tables.decay_history();
        self.stats = SearchStats::new();
    }

    /// The best move for the side to move and its score, by iterative deepening up to the
    /// depth limit (255 plies without one), stopping early on the time or node limit; with
    /// no legal move, no move, and a mate or stalemate score.
    pub fn find_best_move(&mut self, board: &Board) -> (r: SearchResult)
        requires
            old(self).wf(),
            board.wf(),
        ensures
            final(self).wf(),
            final(self).config_of() == old(self).config_of(),
            final(self).limits_of() == old(self).limits_of(),
            r.best_move matches Some(m) ==> board.positions.piece_bb(board.stm, Piece::King) != 0 ==> crate::move_gen::board_fits(*board, m.0),
            r.best_move is None ==> r.depth == 0 && r.is_mate == crate::board::in_check_spec(*board, board.stm) && r.score == (if r.is_mate {
                -20_000i32
            } else {
                0i32
            }),
            r.best_move is Some ==> i32::MIN < r.score,
            r.best_move is None ==> r.pv is None && r.mate_in == (if r.is_mate { Some(0i32) } else { None::<i32> }),
    {
        self.in_progress = true;
        self.prepare_for_search();
        self.start_time = clock_now();
        self.repetition_table.push(board.hash);
        self.search_cycle = self.search_cycle.wrapping_add(1);
        let mut legal_moves = Self::legal_moves(board, false);
        let ghost generated = legal_moves@;
        let mut info: Vec<String> = Vec::new();
        if legal_moves.is_empty() {
            let in_check = board.is_in_check(board.stm);
            let mut mate_in = None;
            let score = if in_check {
                mate_in = Some(0);
                -MATE_SCORE
            } else {
                STALEMATE_SCORE
            };
            self.repetition_table.pop();
            self.in_progress = false;
            return SearchResult {
                best_move: None,
                score,
                depth: 0,
                nodes_searched: self.nodes_searched,
                time_taken: micros_since(&self.start_time) / 1000,
                pv: None,
                is_mate: in_check,
                mate_in,
                info,
            };
        }
        let mut best_move = legal_moves.first();
        let mut best_score: i32 = i32::MIN + 1;
        let mut completed_depth: u16 = 0;
        let mut prev_score: i32 = 0;
        let max_depth: u16 = match self.limits.max_depth {
            Some(d) => d as u16,
            None => 255,
        };
        let mut depth: u16 = 1;
        while depth <= max_depth
            invariant
                self.wf(),
                board.wf(),
                legal_moves.wf(),
                legal_moves@.to_multiset() == generated.to_multiset(),
                legal_moves@.len() > 0,
                1 <= depth <= 256,
                max_depth <= 255,
                completed_depth < depth,
                i32::MIN < best_score,
                i32::MIN < prev_score,
                best_move matches Some(m) ==> generated.contains(m),
                best_move is Some,
                self.config == old(self).config,
                self.limits == old(self).limits,
            decreases 256 - depth,
        {
            if self.should_stop() {
                break;
            }
            let (local_best_move, local_best_score) = self.root_search_with_aspiration(
                board,
                depth,
                &mut legal_moves,
                best_move,
                prev_score,
            );
            if self.should_stop() {
                break;
            }
            completed_depth = depth;
            proof {
                if let Some(m) = local_best_move {
                    assert(legal_moves@.to_multiset().count(m) > 0);
                    assert(generated.to_multiset().count(m) > 0);
                }
            }
            if local_best_move.is_some() {
                best_move = local_best_move;
            }
            best_score = local_best_score;
            prev_score = best_score;
            if self.config.emit_info {
                let elapsed = micros_since(&self.start_time) / 1000;
                let nps = crate::search::nodes_per_second(self.nodes_searched, elapsed);
                info.push(info_line(depth, best_score, self.nodes_searched, nps, best_move));
            }
            depth = depth + 1;
        }
        self.repetition_table.pop();
        if self.config.collect_stats {
            self.stats.depth_reached = completed_depth as u8;
        }
        self.in_progress = false;
        let chosen = match best_move {
            Some(m) => m,
            None => Move(0),
        };
        proof {
            assert(generated.contains(chosen));
            if board.positions.piece_bb(board.stm, Piece::King) != 0 {
                let i = choose|i: int| 0 <= i < generated.len() && generated[i] == chosen;
                assert(crate::move_gen::board_fits(*board, generated[i].0));
            }
        }
        SearchResult {
            best_move: Some(chosen),
            score: best_score,
            depth: completed_depth as u8,
            nodes_searched: self.nodes_searched,
            time_taken: micros_since(&self.start_time) / 1000,
            pv: Some(vec![chosen]),
            is_mate: false,
            mate_in: None,
            info,
        }
    }
}

} // verus!
