use vstd::prelude::*;
use std::time::Instant;
use crate::board::Board;
use crate::components::{Piece, Square};
use crate::move_buffer::MoveBuffer;
use crate::move_gen::pawns_placed_ok;
use crate::zobrist::ZobristKeys;

verus! {

#[verifier::external_type_specification]
#[verifier::external_body]
pub struct ExInstant(Instant);

/// `Instant::now`: the current time. Nothing is claimed of it.
#[verifier::external_body]
pub(crate) fn clock_now() -> Instant {
    Instant::now()
}

/// `Instant::elapsed`, in whole microseconds. Nothing is claimed of it.
#[verifier::external_body]
pub(crate) fn micros_since(start: &Instant) -> u64 {
    start.elapsed().as_micros() as u64
}

/// The outcome of a move-path count.
pub struct PerftResult {
    /// Leaf nodes counted.
    pub nodes: u64,
    /// Time taken, in microseconds.
    pub duration_micros: u64,
    /// Nodes per second.
    pub nps: u64,
    /// Count below each root move, when asked for.
    pub move_counts: Option<Vec<(Square, Square, u64)>>,
}

/// Nodes per second for `nodes` nodes in `micros` microseconds: by whole seconds from one
/// second on, else scaled from the microseconds.
pub open spec fn nps_of(nodes: u64, micros: u64) -> int {
    if micros >= 1_000_000 {
        (nodes as int) / ((micros as int) / 1_000_000)
    } else {
        (nodes as int) * 1_000_000 / (micros as int)
    }
}

impl PerftResult {
    pub fn new(nodes: u64, duration_micros: u64, move_counts: Option<Vec<(Square, Square, u64)>>) -> (r: Self)
        requires
            duration_micros > 0,
            duration_micros < 1_000_000 ==> nodes * 1_000_000 <= u64::MAX,
        ensures
            r.nodes == nodes,
            r.duration_micros == duration_micros,
            r.nps == nps_of(nodes, duration_micros),
            r.move_counts == move_counts,
    {
        let nps = if duration_micros >= 1_000_000 {
            nodes / (duration_micros / 1_000_000)
        } else {
            nodes * 1_000_000 / duration_micros
        };
        Self { nodes, duration_micros, nps, move_counts }
    }
}

/// The counts listed below the root moves, added up.
pub open spec fn counts_sum(v: Seq<(Square, Square, u64)>) -> int
    decreases v.len(),
{
    if v.len() == 0 {
        0
    } else {
        counts_sum(v.drop_last()) + v.last().2
    }
}

/// Counts the leaf nodes of the tree of legal moves `depth` plies deep from `board`, making
/// each move on a copy of the board; with `divide`, lists the count below each root move.
/// Moves that cannot be made are skipped.
pub fn perft(board: &Board, depth: u8, divide: bool, keys: &ZobristKeys) -> (r: PerftResult)
    requires
        board.wf(),
        pawns_placed_ok(board.positions, board.stm),
    ensures
        depth == 0 ==> r.nodes == 1,
        !divide || depth == 0 ==> r.move_counts is None,
        divide && depth > 0 ==> (r.move_counts matches Some(v) && r.nodes == (if counts_sum(v@) > u64::MAX {
            u64::MAX as int
        } else {
            counts_sum(v@)
        })),
    decreases depth,
{
    let start = clock_now();
    if depth == 0 {
        return PerftResult::new(1, 1, None);
    }
    let mut legal_moves = MoveBuffer::new();
    board.generate_legal_moves(&mut legal_moves, false);
    let n = legal_moves.len();
    let mut total_nodes: u64 = 0;
    let mut move_counts: Vec<(Square, Square, u64)> = Vec::new();
    let mut i: usize = 0;
    while i < n
        invariant
            i <= n,
            n == legal_moves@.len(),
            depth > 0,
            pawns_placed_ok(board.positions, board.stm),
            legal_moves.wf(),
            board.wf(),
            divide ==> total_nodes == (if counts_sum(move_counts@) > u64::MAX {
                u64::MAX as int
            } else {
                counts_sum(move_counts@)
            }),
            counts_sum(move_counts@) >= 0,
        decreases n - i,
    {
        let m = match legal_moves.get(i) {
            Some(m) => m,
            None => crate::move_info::Move(0),
        };
        let sub_nodes: u64 = if depth == 1 {
            1
        } else {
            let mut copy = *board;
            if !crate::notation::make_move_safely(&mut copy, m, keys) {
                i = i + 1;
                continue;
            }
            if !crate::move_gen::pawns_placed_check(&copy) {
                i = i + 1;
                continue;
            }
            perft(&copy, depth - 1, false, keys).nodes
        };
        total_nodes = if total_nodes > u64::MAX - sub_nodes { u64::MAX } else { total_nodes + sub_nodes };
        if divide {
            let ghost before = move_counts@;
            move_counts.push((m.from_sq(), m.to_sq(), sub_nodes));
            proof {
                assert(move_counts@.drop_last() =~= before);
            }
        }
        i = i + 1;
    }
    let elapsed = micros_since(&start);
    let measured = if elapsed == 0 { 1 } else { elapsed };
    let micros = if measured < 1_000_000 && total_nodes > u64::MAX / 1_000_000 { 1_000_000 } else { measured };
    let counts = if divide { Some(move_counts) } else { None };
    PerftResult::new(total_nodes, micros, counts)
}

} // verus!
