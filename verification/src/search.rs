use vstd::prelude::*;
use crate::board::Board;
use crate::params::TunableParams;
use crate::components::{Piece, Side};
use crate::move_info::{Move, mv_from, mv_to};

verus! {

/// Deepest ply the search goes to.
pub const MAX_PLY: usize = 256;

/// Largest transposition table, in megabytes.
pub const MAX_HASH: usize = 1024;

/// Score of a stalemate.
pub const STALEMATE_SCORE: i32 = 0;

/// Score of being mated at the root.
pub const MATE_SCORE: i32 = 20_000;

/// Scores beyond this in size encode a mate.
pub const MATE_THRESHOLD: i32 = 19_744;

/// Holds the ply of a node and whether it lies on the principal variation.
#[derive(Clone, Copy, Debug, PartialEq, Eq, Structural)]
pub struct SearchContext {
    pub ply: usize,
    pub is_pv_node: bool,
}

impl SearchContext {
    /// The root: ply 0, on the principal variation.
    pub fn root() -> (r: Self)
        ensures
            r.ply == 0,
            r.is_pv_node,
    {
        SearchContext { ply: 0, is_pv_node: true }
    }

    /// A child one ply deeper, on the principal variation when `is_pv_child` says so.
    pub fn new_child(&self, is_pv_child: bool) -> (r: Self)
        requires
            self.ply < usize::MAX,
        ensures
            r.ply == self.ply + 1,
            r.is_pv_node == is_pv_child,
    {
        SearchContext { ply: self.ply + 1, is_pv_node: is_pv_child }
    }
}

/// `v` kept within the range of `i32`.
pub open spec fn sat_i32(v: int) -> int {
    if v > i32::MAX {
        i32::MAX as int
    } else if v < i32::MIN {
        i32::MIN as int
    } else {
        v
    }
}

/// A score seen from a node `ply` plies below the root: a mate score moves `ply` toward zero,
/// with the result kept within `i32`; the lowest `i32` becomes the losing mate score; other
/// scores stay.
pub open spec fn score_for_ply(score: int, ply: int) -> int {
    if score == i32::MIN {
        -MATE_SCORE
    } else if score > MATE_THRESHOLD {
        sat_i32(score - ply)
    } else if score < -MATE_THRESHOLD {
        sat_i32(score + ply)
    } else {
        score
    }
}

/// A score of a node `ply` plies below the root, seen from the root: a mate score moves
/// `ply` away from zero, with the result kept within `i32`; the lowest `i32` becomes the
/// losing mate score; other scores stay.
pub open spec fn score_from_ply(score: int, ply: int) -> int {
    if score == i32::MIN {
        -MATE_SCORE
    } else if score > MATE_THRESHOLD {
        sat_i32(score + ply)
    } else if score < -MATE_THRESHOLD {
        sat_i32(score - ply)
    } else {
        score
    }
}

/// `ply` as an `i32`, as a cast gives it: its lowest 32 bits.
fn ply_i32(ply: usize) -> (r: i32)
    ensures
        ply <= i32::MAX ==> r == ply,
{
    ply as i32
}

/// `a + b`, kept within the range of `i32`.
pub fn sat_add(a: i32, b: i64) -> (r: i32)
    requires
        -0x1_0000_0000 <= b <= 0x1_0000_0000,
    ensures
        r == sat_i32(a + b),
{
    let v = a as i64 + b;
    if v > i32::MAX as i64 {
        i32::MAX
    } else if v < i32::MIN as i64 {
        i32::MIN
    } else {
        v as i32
    }
}

/// Encodes the distance to mate into a score for a node `ply` plies below the root.
pub fn adjust_score_for_ply(score: i32, ply: usize) -> (r: i32)
    requires
        ply <= i32::MAX,
    ensures
        r == score_for_ply(score as int, ply as int),
{
    if score == i32::MIN {
        return -MATE_SCORE;
    }
    let p = ply_i32(ply);
    if score > MATE_THRESHOLD {
        sat_add(score, -(p as i64))
    } else if score < -MATE_THRESHOLD {
        sat_add(score, p as i64)
    } else {
        score
    }
}

/// Turns a score of a node `ply` plies below the root into one relative to the root, before
/// it is stored in the transposition table.
pub fn adjust_score_from_ply(score: i32, ply: usize) -> (r: i32)
    requires
        ply <= i32::MAX,
    ensures
        r == score_from_ply(score as int, ply as int),
{
    if score == i32::MIN {
        return -MATE_SCORE;
    }
    let p = ply_i32(ply);
    if score > MATE_THRESHOLD {
        sat_add(score, p as i64)
    } else if score < -MATE_THRESHOLD {
        sat_add(score, -(p as i64))
    } else {
        score
    }
}

/// Storing a score from a node and reading it back at the same ply gives the score again,
/// for every score that is no mate score or stays one across the ply, and is not the lowest
/// `i32`.
pub proof fn lemma_ply_round_trip(score: i32, ply: usize)
    requires
        ply <= i32::MAX,
        score != i32::MIN,
        score > MATE_THRESHOLD ==> score as int + ply <= i32::MAX,
        score < -MATE_THRESHOLD ==> score as int - ply > i32::MIN,
    ensures
        score_for_ply(score_from_ply(score as int, ply as int), ply as int) == score,
{
}

/// The side to move has a piece other than pawns and its king.
pub open spec fn non_pawn_material(b: Board) -> bool {
    b.positions.side_bb(b.stm) & !(b.positions.piece_bb(b.stm, Piece::Pawn) | b.positions.piece_bb(b.stm, Piece::King)) != 0
}

/// Whether the side to move has a piece other than pawns and its king.
pub fn has_non_pawn_material(board: &Board) -> (r: bool)
    ensures
        r == non_pawn_material(*board),
{
    let side = board.stm;
    let side_pieces = board.positions.get_side_bb(side).0;
    let pawns = board.positions.get_piece_bb(side, Piece::Pawn).0;
    let king = board.positions.get_piece_bb(side, Piece::King).0;
    side_pieces & !(pawns | king) != 0
}

/// Nodes per second for `nodes` nodes in `ms` milliseconds, counting at least one
/// millisecond, capped at the largest `u64`.
pub open spec fn nps_of(nodes: int, ms: int) -> int {
    let per = nodes * 1000 / (if ms > 0 { ms } else { 1 });
    if per > u64::MAX { u64::MAX as int } else { per }
}

/// Nodes per second for `nodes` nodes in `ms` milliseconds.
pub fn nodes_per_second(nodes: u64, ms: u64) -> (r: u64)
    ensures
        r == nps_of(nodes as int, ms as int),
{
    let t: u128 = if ms > 0 { ms as u128 } else { 1 };
    let per = (nodes as u128) * 1000 / t;
    if per > u64::MAX as u128 {
        u64::MAX
    } else {
        per as u64
    }
}

/// What a search engine offers: searching a position, setting and reading its limits and
/// configuration, and reading its weights and counters.
pub trait SearchEngine: Send {
    /// The engine's own consistency, which every operation keeps.
    spec fn ready(&self) -> bool;

    /// The configuration in force.
    spec fn config_view(&self) -> SearchConfig;

    /// The limits in force.
    spec fn limits_view(&self) -> SearchLimits;

    /// Searches `board` for the best move.
    fn search(&mut self, board: &Board) -> (r: SearchResult)
        requires
            old(self).ready(),
            board.wf(),
        ensures
            final(self).ready(),
            final(self).config_view() == old(self).config_view(),
            final(self).limits_view() == old(self).limits_view(),
    ;

    /// Sets the depth limit.
    fn set_depth(&mut self, depth: u8)
        requires
            old(self).ready(),
        ensures
            final(self).ready(),
            final(self).limits_view() == (SearchLimits { max_depth: Some(depth), ..old(self).limits_view() }),
            final(self).config_view() == old(self).config_view(),
    ;

    /// Sets the time limit in milliseconds.
    fn set_time(&mut self, time_ms: u64)
        requires
            old(self).ready(),
        ensures
            final(self).ready(),
            final(self).limits_view() == (SearchLimits { max_time: Some(time_ms), ..old(self).limits_view() }),
            final(self).config_view() == old(self).config_view(),
    ;

    /// Sets the node limit.
    fn set_nodes(&mut self, nodes: u64)
        requires
            old(self).ready(),
        ensures
            final(self).ready(),
            final(self).limits_view() == (SearchLimits { max_nodes: Some(nodes), ..old(self).limits_view() }),
            final(self).config_view() == old(self).config_view(),
    ;

    /// The configuration.
    fn get_config(&self) -> (r: SearchConfig)
        ensures
            r == self.config_view(),
    ;

    /// The limits.
    fn get_limits(&self) -> (r: SearchLimits)
        ensures
            r == self.limits_view(),
    ;

    /// The evaluation weights.
    fn get_params(&self) -> (r: TunableParams);

    /// Forgets what earlier searches learned.
    fn clear(&mut self)
        requires
            old(self).ready(),
        ensures
            final(self).ready(),
            final(self).config_view() == old(self).config_view(),
            final(self).limits_view() == old(self).limits_view(),
    ;

    /// Marks the search as no longer running.
    fn stop(&mut self)
        requires
            old(self).ready(),
        ensures
            final(self).ready(),
            final(self).config_view() == old(self).config_view(),
            final(self).limits_view() == old(self).limits_view(),
    ;

    /// The search counters.
    fn get_stats(&mut self) -> (r: SearchStats)
        requires
            old(self).ready(),
        ensures
            final(self).ready(),
            final(self).config_view() == old(self).config_view(),
            final(self).limits_view() == old(self).limits_view(),
    ;
}

/// How far a search may go: depth, time in milliseconds, nodes, mate depth.
#[derive(Clone, Copy, Debug, PartialEq, Eq, Structural)]
pub struct SearchLimits {
    pub max_depth: Option<u8>,
    pub max_time: Option<u64>,
    pub max_nodes: Option<u64>,
    pub mate_depth: Option<u8>,
}

impl SearchLimits {
    /// No limit at all.
    pub open spec fn infinite_spec() -> Self {
        SearchLimits { max_depth: None, max_time: None, max_nodes: None, mate_depth: None }
    }

    /// No limit at all.
    pub fn infinite() -> (r: Self)
        ensures
            r == Self::infinite_spec(),
    {
        SearchLimits { max_depth: None, max_time: None, max_nodes: None, mate_depth: None }
    }

    /// A depth limit alone.
    pub fn depth(depth: u8) -> (r: Self)
        ensures
            r.max_depth == Some(depth),
            r.max_time is None,
            r.max_nodes is None,
            r.mate_depth is None,
    {
        SearchLimits { max_depth: Some(depth), max_time: None, max_nodes: None, mate_depth: None }
    }

    /// A time limit in milliseconds alone.
    pub fn time(time_ms: u64) -> (r: Self)
        ensures
            r.max_depth is None,
            r.max_time == Some(time_ms),
            r.max_nodes is None,
            r.mate_depth is None,
    {
        SearchLimits { max_depth: None, max_time: Some(time_ms), max_nodes: None, mate_depth: None }
    }

    /// A node limit alone.
    pub fn nodes(nodes: u64) -> (r: Self)
        ensures
            r.max_depth is None,
            r.max_time is None,
            r.max_nodes == Some(nodes),
            r.mate_depth is None,
    {
        SearchLimits { max_depth: None, max_time: None, max_nodes: Some(nodes), mate_depth: None }
    }
}

/// Which techniques the search uses, whether it reports and counts, and the size of its
/// transposition table in megabytes.
#[derive(Clone, Copy, Debug, PartialEq, Eq, Structural)]
pub struct SearchConfig {
    pub enable_nmp: bool,
    pub enable_asp: bool,
    pub enable_lmr: bool,
    pub emit_info: bool,
    pub collect_stats: bool,
    pub hash_size_mb: usize,
}

impl Default for SearchConfig {
    /// Every technique on, reporting and counting on, a table of 16 megabytes.
    fn default() -> (r: Self)
        ensures
            r.enable_nmp && r.enable_asp && r.enable_lmr && r.emit_info && r.collect_stats,
            r.hash_size_mb == 16,
    {
        SearchConfig {
            enable_nmp: true,
            enable_asp: true,
            enable_lmr: true,
            emit_info: true,
            collect_stats: true,
            hash_size_mb: 16,
        }
    }
}

/// What a search found: the best move, its score, the depth completed, the nodes searched,
/// the time taken in milliseconds, the principal variation, whether it is a mate, and the
/// lines reported along the way.
#[derive(Clone, Debug)]
pub struct SearchResult {
    pub best_move: Option<Move>,
    pub score: i32,
    pub depth: u8,
    pub nodes_searched: u64,
    pub time_taken: u64,
    pub pv: Option<Vec<Move>>,
    pub is_mate: bool,
    pub mate_in: Option<i32>,
    /// The line reported after each completed depth, in order.
    pub info: Vec<String>,
}

impl SearchResult {
    /// Nodes per second, counting at least one millisecond.
    pub fn nps(&self) -> (r: u64)
        ensures
            r == nps_of(self.nodes_searched as int, self.time_taken as int),
    {
        nodes_per_second(self.nodes_searched, self.time_taken)
    }
}

/// Counters a search keeps about its work.
#[derive(Clone, Copy, Debug)]
pub struct SearchStats {
    /// Nodes searched, quiescence included.
    pub nodes_searched: u64,
    /// Deepest iteration completed.
    pub depth_reached: u8,
    /// Milliseconds elapsed.
    pub time_elapsed: u64,
    /// Nodes per second.
    pub nps: u64,
    /// Per mille of the table in use.
    pub hash_full: u16,
    /// Nodes of the main search that searched their moves.
    pub main_search_nodes: u64,
    /// Quiescence nodes that searched their moves.
    pub qsearch_nodes: u64,
    /// Exact scores returned from the table.
    pub tt_exact_returns: u64,
    /// Returns on a draw.
    pub draw_returns: u64,
    /// Returns on a mate or stalemate.
    pub mate_returns: u64,
    /// Stand-pat cutoffs in quiescence.
    pub standpat_returns: u64,
    /// Nodes pruned.
    pub pruned_nodes: u64,
    /// Table probes.
    pub tt_probes: u64,
    /// Table probes that found an entry.
    pub tt_hits: u64,
    /// Cutoffs the table gave.
    pub tt_cutoffs: u64,
    /// Null moves tried.
    pub null_move_attempts: u64,
    /// Null moves that cut off.
    pub null_move_cutoffs: u64,
    /// Reduced searches.
    pub lmr_attempts: u64,
    /// Reduced searches searched again.
    pub lmr_research: u64,
    /// Captures skipped by delta pruning.
    pub delta_pruning_cutoffs: u64,
    /// Captures skipped by exchange evaluation.
    pub see_pruning_cutoffs: u64,
    /// Aspiration windows failed high.
    pub asp_fail_high: u64,
    /// Aspiration windows failed low.
    pub asp_fail_low: u64,
    /// Aspiration searches repeated.
    pub asp_research: u64,
    /// Beta cutoffs in the main search.
    pub beta_cutoffs_main: u64,
    /// Beta cutoffs in quiescence.
    pub beta_cutoffs_qs: u64,
    /// Exact scores found.
    pub exact_scores: u64,
    /// Nodes that failed to raise alpha.
    pub fail_lows: u64,
    /// Beta cutoffs by the index of the move that gave them.
    pub cutoff_at_move: [u64; 256],
}

/// `a + b`, capped at the largest `u64`.
pub open spec fn sat_sum(a: u64, b: u64) -> u64 {
    if a + b > u64::MAX { u64::MAX } else { (a + b) as u64 }
}

/// `a + b`, capped at the largest `u64`.
pub fn sat_plus(a: u64, b: u64) -> (r: u64)
    ensures
        r == sat_sum(a, b),
{
    if a > u64::MAX - b { u64::MAX } else { a + b }
}

impl SearchStats {
    /// Every counter is zero.
    pub open spec fn fresh(&self) -> bool {
        &&& self.nodes_searched == 0
        &&& self.main_search_nodes == 0
        &&& self.qsearch_nodes == 0
        &&& self.tt_exact_returns == 0
        &&& self.draw_returns == 0
        &&& self.mate_returns == 0
        &&& self.standpat_returns == 0
        &&& self.pruned_nodes == 0
        &&& self.tt_probes == 0
        &&& self.tt_hits == 0
        &&& self.tt_cutoffs == 0
        &&& self.null_move_attempts == 0
        &&& self.null_move_cutoffs == 0
        &&& self.lmr_attempts == 0
        &&& self.lmr_research == 0
        &&& self.delta_pruning_cutoffs == 0
        &&& self.see_pruning_cutoffs == 0
        &&& self.asp_fail_high == 0
        &&& self.asp_fail_low == 0
        &&& self.asp_research == 0
        &&& self.beta_cutoffs_main == 0
        &&& self.beta_cutoffs_qs == 0
        &&& self.exact_scores == 0
        &&& self.fail_lows == 0
        &&& self.depth_reached == 0
        &&& self.time_elapsed == 0
        &&& self.nps == 0
        &&& self.hash_full == 0
        &&& forall|i: int| 0 <= i < 256 ==> self.cutoff_at_move[i] == 0
    }

    /// Every counter at zero.
    pub fn new() -> (r: Self)
        ensures
            r.fresh(),
    {
        SearchStats {
            nodes_searched: 0,
            main_search_nodes: 0,
            qsearch_nodes: 0,
            tt_exact_returns: 0,
            draw_returns: 0,
            mate_returns: 0,
            standpat_returns: 0,
            pruned_nodes: 0,
            tt_probes: 0,
            tt_hits: 0,
            tt_cutoffs: 0,
            null_move_attempts: 0,
            null_move_cutoffs: 0,
            lmr_attempts: 0,
            lmr_research: 0,
            delta_pruning_cutoffs: 0,
            see_pruning_cutoffs: 0,
            asp_fail_high: 0,
            asp_fail_low: 0,
            asp_research: 0,
            beta_cutoffs_main: 0,
            beta_cutoffs_qs: 0,
            exact_scores: 0,
            fail_lows: 0,
            depth_reached: 0,
            time_elapsed: 0,
            nps: 0,
            hash_full: 0,
            cutoff_at_move: [0u64; 256],
        }
    }

    /// Sets the nodes per second from the nodes and the time, counting at least one
    /// millisecond.
    pub fn calculate_nps(&mut self)
        ensures
            final(self).nps == nps_of(old(self).nodes_searched as int, old(self).time_elapsed as int),
            final(self).nodes_searched == old(self).nodes_searched,
            final(self).time_elapsed == old(self).time_elapsed,
            *final(self) == (SearchStats { nps: final(self).nps, ..*old(self) }),
    {
        self.nps = nodes_per_second(self.nodes_searched, self.time_elapsed);
    }

    /// The counters of two searches together: every counter summed (capped at the largest
    /// `u64`), the deeper depth, the times summed, the table use of `rhs`, and the nodes per
    /// second of the sums.
    pub fn combine(self, rhs: Self) -> (r: Self)
        ensures
            r.nodes_searched == sat_sum(self.nodes_searched, rhs.nodes_searched),
            r.main_search_nodes == sat_sum(self.main_search_nodes, rhs.main_search_nodes),
            r.qsearch_nodes == sat_sum(self.qsearch_nodes, rhs.qsearch_nodes),
            r.tt_exact_returns == sat_sum(self.tt_exact_returns, rhs.tt_exact_returns),
            r.draw_returns == sat_sum(self.draw_returns, rhs.draw_returns),
            r.mate_returns == sat_sum(self.mate_returns, rhs.mate_returns),
            r.standpat_returns == sat_sum(self.standpat_returns, rhs.standpat_returns),
            r.pruned_nodes == sat_sum(self.pruned_nodes, rhs.pruned_nodes),
            r.tt_probes == sat_sum(self.tt_probes, rhs.tt_probes),
            r.tt_hits == sat_sum(self.tt_hits, rhs.tt_hits),
            r.tt_cutoffs == sat_sum(self.tt_cutoffs, rhs.tt_cutoffs),
            r.null_move_attempts == sat_sum(self.null_move_attempts, rhs.null_move_attempts),
            r.null_move_cutoffs == sat_sum(self.null_move_cutoffs, rhs.null_move_cutoffs),
            r.lmr_attempts == sat_sum(self.lmr_attempts, rhs.lmr_attempts),
            r.lmr_research == sat_sum(self.lmr_research, rhs.lmr_research),
            r.delta_pruning_cutoffs == sat_sum(self.delta_pruning_cutoffs, rhs.delta_pruning_cutoffs),
            r.see_pruning_cutoffs == sat_sum(self.see_pruning_cutoffs, rhs.see_pruning_cutoffs),
            r.asp_fail_high == sat_sum(self.asp_fail_high, rhs.asp_fail_high),
            r.asp_fail_low == sat_sum(self.asp_fail_low, rhs.asp_fail_low),
            r.asp_research == sat_sum(self.asp_research, rhs.asp_research),
            r.beta_cutoffs_main == sat_sum(self.beta_cutoffs_main, rhs.beta_cutoffs_main),
            r.beta_cutoffs_qs == sat_sum(self.beta_cutoffs_qs, rhs.beta_cutoffs_qs),
            r.exact_scores == sat_sum(self.exact_scores, rhs.exact_scores),
            r.fail_lows == sat_sum(self.fail_lows, rhs.fail_lows),
            r.depth_reached == (if self.depth_reached >= rhs.depth_reached { self.depth_reached } else { rhs.depth_reached }),
            r.time_elapsed == sat_sum(self.time_elapsed, rhs.time_elapsed),
            r.nps == nps_of(r.nodes_searched as int, r.time_elapsed as int),
            r.hash_full == rhs.hash_full,
            forall|i: int| 0 <= i < 256 ==> r.cutoff_at_move[i] == sat_sum(self.cutoff_at_move[i], rhs.cutoff_at_move[i]),
    {
        let mut cut = [0u64; 256];
        let mut i: usize = 0;
        while i < 256
            invariant
                i <= 256,
                forall|j: int| 0 <= j < i ==> cut[j] == sat_sum(self.cutoff_at_move[j], rhs.cutoff_at_move[j]),
            decreases 256 - i,
        {
            cut[i] = sat_plus(self.cutoff_at_move[i], rhs.cutoff_at_move[i]);
            i = i + 1;
        }
        let nodes = sat_plus(self.nodes_searched, rhs.nodes_searched);
        let time = sat_plus(self.time_elapsed, rhs.time_elapsed);
        SearchStats {
            nodes_searched: nodes,
            main_search_nodes: sat_plus(self.main_search_nodes, rhs.main_search_nodes),
            qsearch_nodes: sat_plus(self.qsearch_nodes, rhs.qsearch_nodes),
            tt_exact_returns: sat_plus(self.tt_exact_returns, rhs.tt_exact_returns),
            draw_returns: sat_plus(self.draw_returns, rhs.draw_returns),
            mate_returns: sat_plus(self.mate_returns, rhs.mate_returns),
            standpat_returns: sat_plus(self.standpat_returns, rhs.standpat_returns),
            pruned_nodes: sat_plus(self.pruned_nodes, rhs.pruned_nodes),
            tt_probes: sat_plus(self.tt_probes, rhs.tt_probes),
            tt_hits: sat_plus(self.tt_hits, rhs.tt_hits),
            tt_cutoffs: sat_plus(self.tt_cutoffs, rhs.tt_cutoffs),
            null_move_attempts: sat_plus(self.null_move_attempts, rhs.null_move_attempts),
            null_move_cutoffs: sat_plus(self.null_move_cutoffs, rhs.null_move_cutoffs),
            lmr_attempts: sat_plus(self.lmr_attempts, rhs.lmr_attempts),
            lmr_research: sat_plus(self.lmr_research, rhs.lmr_research),
            delta_pruning_cutoffs: sat_plus(self.delta_pruning_cutoffs, rhs.delta_pruning_cutoffs),
            see_pruning_cutoffs: sat_plus(self.see_pruning_cutoffs, rhs.see_pruning_cutoffs),
            asp_fail_high: sat_plus(self.asp_fail_high, rhs.asp_fail_high),
            asp_fail_low: sat_plus(self.asp_fail_low, rhs.asp_fail_low),
            asp_research: sat_plus(self.asp_research, rhs.asp_research),
            beta_cutoffs_main: sat_plus(self.beta_cutoffs_main, rhs.beta_cutoffs_main),
            beta_cutoffs_qs: sat_plus(self.beta_cutoffs_qs, rhs.beta_cutoffs_qs),
            exact_scores: sat_plus(self.exact_scores, rhs.exact_scores),
            fail_lows: sat_plus(self.fail_lows, rhs.fail_lows),
            depth_reached: if self.depth_reached >= rhs.depth_reached { self.depth_reached } else { rhs.depth_reached },
            time_elapsed: time,
            nps: nodes_per_second(nodes, time),
            hash_full: rhs.hash_full,
            cutoff_at_move: cut,
        }
    }
}

/// Number of positions the repetition table holds.
pub const HISTORY_SIZE: usize = 128;

/// Killer moves by ply and the history of quiet moves that caused cutoffs.
#[derive(Clone, Debug)]
pub struct SearchTables {
    /// Two killer moves per ply, the newer first.
    pub killer_moves: [[Option<Move>; 2]; 256],
    /// Bonus per origin and target square.
    pub history: [[i32; 64]; 64],
}

impl SearchTables {
    /// No killers and no history.
    pub fn new() -> (r: Self)
        ensures
            forall|p: int, k: int| 0 <= p < 256 && 0 <= k < 2 ==> #[trigger] r.killer_moves[p][k] is None,
            forall|a: int, b: int| 0 <= a < 64 && 0 <= b < 64 ==> #[trigger] r.history[a][b] == 0,
    {
        SearchTables { killer_moves: [[None; 2]; 256], history: [[0i32; 64]; 64] }
    }

    /// Drops the killer moves; the history stays, as it lasts across searches.
    pub fn clear(&mut self)
        ensures
            forall|p: int, k: int| 0 <= p < 256 && 0 <= k < 2 ==> #[trigger] final(self).killer_moves[p][k] is None,
            final(self).history == old(self).history,
    {
        self.killer_moves = [[None; 2]; 256];
    }

    /// Makes `mv` the newer killer of `ply` and the former newer one the older; nothing
    /// beyond the deepest ply.
    pub fn update_killers(&mut self, ply: usize, mv: Move)
        ensures
            ply < MAX_PLY ==> final(self).killer_moves[ply as int][0] == Some(mv),
            ply < MAX_PLY ==> final(self).killer_moves[ply as int][1] == old(self).killer_moves[ply as int][0],
            forall|p: int| 0 <= p < 256 && p != ply ==> #[trigger] final(self).killer_moves[p] == old(self).killer_moves[p],
            ply >= MAX_PLY ==> final(self).killer_moves == old(self).killer_moves,
            final(self).history == old(self).history,
    {
        if ply < MAX_PLY {
            let first = self.killer_moves[ply][0];
            self.killer_moves[ply] = [Some(mv), first];
        }
    }

    /// Adds the square of `depth` to the history of `mv`'s squares, stopping at the largest
    /// `i32`.
    pub fn update_history(&mut self, mv: Move, depth: u16)
        ensures
            final(self).history[mv_from(mv.0)][mv_to(mv.0)] == sat_i32(
                old(self).history[mv_from(mv.0)][mv_to(mv.0)] + depth * depth,
            ),
            forall|a: int, b: int|
                0 <= a < 64 && 0 <= b < 64 && (a != mv_from(mv.0) || b != mv_to(mv.0)) ==> #[trigger] final(self).history[a][b]
                    == old(self).history[a][b],
            final(self).killer_moves == old(self).killer_moves,
    {
        let from = mv.from_idx() as usize;
        let to = mv.to_idx() as usize;
        assert(0 <= (depth as int) * (depth as int) <= 0x1_0000_0000) by (nonlinear_arith)
            requires
                0 <= depth <= 0xFFFF;
        let bonus = (depth as i64) * (depth as i64);
        let mut row = self.history[from];
        row[to] = sat_add(row[to], bonus);
        self.history[from] = row;
    }

    /// Halves every history entry, as integer division does.
    pub fn decay_history(&mut self)
        ensures
            forall|a: int, b: int| 0 <= a < 64 && 0 <= b < 64 ==> #[trigger] final(self).history[a][b] == half(old(self).history[a][b] as int),
            final(self).killer_moves == old(self).killer_moves,
    {
        let mut from: usize = 0;
        while from < 64
            invariant
                from <= 64,
                self.killer_moves == old(self).killer_moves,
                forall|a: int, b: int| 0 <= a < from && 0 <= b < 64 ==> #[trigger] self.history[a][b] == half(old(self).history[a][b] as int),
                forall|a: int, b: int| from <= a < 64 && 0 <= b < 64 ==> #[trigger] self.history[a][b] == old(self).history[a][b],
            decreases 64 - from,
        {
            let mut row = self.history[from];
            let ghost row0 = row;
            let mut to: usize = 0;
            while to < 64
                invariant
                    to <= 64,
                    forall|b: int| 0 <= b < to ==> #[trigger] row[b] == half(row0[b] as int),
                    forall|b: int| to <= b < 64 ==> #[trigger] row[b] == row0[b],
                decreases 64 - to,
            {
                row[to] = row[to] / 2;
                to = to + 1;
            }
            self.history[from] = row;
            from = from + 1;
        }
    }
}

/// `v` halved, rounding toward zero.
pub open spec fn half(v: int) -> int {
    if v >= 0 {
        v / 2
    } else {
        -((-v) / 2)
    }
}

/// Number of times `h` occurs in `s`.
pub open spec fn occurrences(s: Seq<u64>, h: u64) -> nat
    decreases s.len(),
{
    if s.len() == 0 {
        0
    } else {
        occurrences(s.drop_last(), h) + (if s.last() == h { 1nat } else { 0nat })
    }
}

/// Hashes of the positions on the path from the game's start to the current node.
#[derive(Clone, Debug)]
pub struct RepetitionTable {
    hashes: [u64; 128],
    len: usize,
}

impl View for RepetitionTable {
    type V = Seq<u64>;

    closed spec fn view(&self) -> Seq<u64> {
        self.hashes@.subrange(0, self.len as int)
    }
}

impl RepetitionTable {
    /// At most 128 hashes.
    pub closed spec fn wf(&self) -> bool {
        self.len <= HISTORY_SIZE
    }

    /// An empty table.
    pub fn new() -> (r: Self)
        ensures
            r.wf(),
            r@ == Seq::<u64>::empty(),
    {
        RepetitionTable { hashes: [0u64; 128], len: 0 }
    }

    /// Adds `hash` at the end, when there is room.
    pub fn push(&mut self, hash: u64)
        requires
            old(self).wf(),
        ensures
            final(self).wf(),
            old(self)@.len() < HISTORY_SIZE ==> final(self)@ == old(self)@.push(hash),
            old(self)@.len() >= HISTORY_SIZE ==> final(self)@ == old(self)@,
    {
        if self.len < HISTORY_SIZE {
            self.hashes[self.len] = hash;
            self.len = self.len + 1;
            assert(self@ =~= old(self)@.push(hash));
        }
    }

    /// Drops the last hash, if any.
    pub fn pop(&mut self)
        requires
            old(self).wf(),
        ensures
            final(self).wf(),
            old(self)@.len() > 0 ==> final(self)@ == old(self)@.drop_last(),
            old(self)@.len() == 0 ==> final(self)@ == old(self)@,
    {
        if self.len > 0 {
            self.len = self.len - 1;
            assert(self@ =~= old(self)@.drop_last());
        }
    }

    /// Number of times `hash` occurs in the table.
    pub fn count_repetitions(&self, hash: u64) -> (r: usize)
        requires
            self.wf(),
        ensures
            r == occurrences(self@, hash),
    {
        let mut n: usize = 0;
        let mut i: usize = 0;
        while i < self.len
            invariant
                self.wf(),
                i <= self.len,
                n <= i,
                n == occurrences(self@.subrange(0, i as int), hash),
            decreases self.len - i,
        {
            assert(self@.subrange(0, i as int + 1).drop_last() =~= self@.subrange(0, i as int));
            assert(self@.subrange(0, i as int + 1).last() == self.hashes[i as int]);
            if self.hashes[i] == hash {
                n = n + 1;
            }
            i = i + 1;
        }
        assert(self@.subrange(0, self.len as int) =~= self@);
        n
    }

    /// Empties the table.
    pub fn clear(&mut self)
        ensures
            final(self).wf(),
            final(self)@ == Seq::<u64>::empty(),
    {
        self.len = 0;
        assert(self@ =~= Seq::<u64>::empty());
    }

    /// Number of hashes held.
    pub fn len(&self) -> (r: usize)
        requires
            self.wf(),
        ensures
            r == self@.len(),
    {
        self.len
    }
}

/// Pushing a hash and popping it again leaves the table as it was, when there was room.
pub proof fn lemma_push_pop(s: Seq<u64>, h: u64)
    ensures
        s.push(h).drop_last() == s,
{
    assert(s.push(h).drop_last() =~= s);
}

impl Default for SearchStats {
    /// All counters zero.
    fn default() -> (r: Self)
        ensures
            r.fresh(),
    {
        SearchStats::new()
    }
}

impl Default for SearchTables {
    /// No killer moves and an all-zero history.
    fn default() -> (r: Self)
        ensures
            forall|p: int, k: int| 0 <= p < 256 && 0 <= k < 2 ==> #[trigger] r.killer_moves[p][k] is None,
            forall|a: int, b: int| 0 <= a < 64 && 0 <= b < 64 ==> #[trigger] r.history[a][b] == 0,
    {
        SearchTables::new()
    }
}

impl Default for RepetitionTable {
    /// An empty table.
    fn default() -> (r: Self)
        ensures
            r.wf(),
            r@ == Seq::<u64>::empty(),
    {
        RepetitionTable::new()
    }
}

} // verus!
