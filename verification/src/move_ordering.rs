use vstd::prelude::*;
use crate::board::Board;
use crate::components::{Piece, Side};
use crate::move_info::{Move, mv_from, mv_to, mv_flags, CAPTURE, EN_PASSANT, PROMO, flag_promo_piece};
use crate::see::see_value;
use crate::move_buffer::MoveBuffer;

verus! {

broadcast use vstd::seq_lib::group_to_multiset_ensures;

/// Score of the move the transposition table suggests.
pub const TT_MOVE_SCORE: i32 = 3_000_000;

/// Base score of a winning capture.
pub const MVV_LVA_OFFSET: i32 = 2_000_000;

/// Score of a killer move.
pub const KILLER_MOVE_SCORE: i32 = 1_000_000;

/// Score of a promotion to a queen in quiescence.
pub const PROMOTION_SCORE: i32 = 1_000_000;

/// Base score of a capture that does not win material: high enough that such a capture,
/// whatever it loses, still ranks above every killer move, as every capture does.
pub const BAD_CAPTURE_SCORE: i32 = 1_700_000;

/// The exchange evaluation can be taken of `m`: a piece stands on its origin, and an en
/// passant capture's victim square lies on the board.
pub open spec fn see_ok(b: Board, m: u16) -> bool {
    &&& b.positions.mb()[mv_from(m)] is Some
    &&& (mv_flags(m) == EN_PASSANT ==> (if b.stm == Side::White { mv_to(m) >= 8 } else { mv_to(m) + 8 < 64 }))
}

/// The exchange value of `m`, or 0 when it cannot be taken.
pub open spec fn see_or_zero(b: Board, m: u16) -> int {
    if see_ok(b, m) {
        see_value(b, m)
    } else {
        0
    }
}

/// The exchange value of `m`, or 0 when it cannot be taken.
pub(crate) fn see_checked(board: &Board, m: Move) -> (r: i32)
    requires
        board.positions.wf(),
    ensures
        r == see_or_zero(*board, m.0),
        -640_000 <= r <= 640_000,
{
    proof {
        board.positions.lemma_mb_len();
    }
    let from = m.from_sq();
    let to = m.to_idx() as usize;
    if board.get_piece_at(from).is_none() {
        return 0;
    }
    if m.is_enpassant() {
        let ok = if board.stm == Side::White { to >= 8 } else { to + 8 < 64 };
        if !ok {
            return 0;
        }
    }
    board.static_exchange_evaluation(m)
}

/// The main-search score of `m`: the table's move first, then winning captures by their
/// exchange value, then captures that do not win, then killer moves, and quiet moves by their
/// history.
pub open spec fn main_score(
    b: Board,
    m: Move,
    killers: [Option<Move>; 2],
    tt_move: Option<Move>,
    history: [[i32; 64]; 64],
) -> int {
    if tt_move == Some(m) {
        TT_MOVE_SCORE as int
    } else if m.0 & CAPTURE != 0 {
        let see = see_or_zero(b, m.0);
        if see > 0 {
            MVV_LVA_OFFSET + see
        } else {
            BAD_CAPTURE_SCORE + see
        }
    } else if killers[0] == Some(m) || killers[1] == Some(m) {
        KILLER_MOVE_SCORE as int
    } else {
        history[mv_from(m.0)][mv_to(m.0)] as int
    }
}

/// The quiescence score of `m`: captures by their exchange value, then promotions, a
/// queen's above the others, then the rest.
pub open spec fn qsearch_score(b: Board, m: Move) -> int {
    if m.0 & CAPTURE != 0 {
        MVV_LVA_OFFSET + see_or_zero(b, m.0)
    } else if m.0 & PROMO != 0 {
        if flag_promo_piece(mv_flags(m.0)) == Some(Piece::Queen) {
            PROMOTION_SCORE as int
        } else {
            PROMOTION_SCORE / 2
        }
    } else {
        0
    }
}

/// How a search ranks moves.
pub trait MoveScoringPolicy {
    /// The score the policy gives `mv`.
    spec fn spec_score(b: Board, mv: Move, killers: [Option<Move>; 2], tt_move: Option<Move>, history: [[i32; 64]; 64]) -> int;

    /// The score of `mv`; higher is tried first.
    fn score(
        board: &Board,
        mv: Move,
        killers: &[Option<Move>; 2],
        tt_move: Option<Move>,
        history: &[[i32; 64]; 64],
    ) -> (r: i32)
        requires
            board.positions.wf(),
        ensures
            r == Self::spec_score(*board, mv, *killers, tt_move, *history),
    ;
}

/// Ranking for the main search.
pub struct MainSearchPolicy;

impl MoveScoringPolicy for MainSearchPolicy {
    open spec fn spec_score(b: Board, mv: Move, killers: [Option<Move>; 2], tt_move: Option<Move>, history: [[i32; 64]; 64]) -> int {
        main_score(b, mv, killers, tt_move, history)
    }

    fn score(
        board: &Board,
        mv: Move,
        killers: &[Option<Move>; 2],
        tt_move: Option<Move>,
        history: &[[i32; 64]; 64],
    ) -> (r: i32)
    {
        if let Some(t) = tt_move {
            if t == mv {
                return TT_MOVE_SCORE;
            }
        }
        if mv.is_capture() {
            let see_score = see_checked(board, mv);
            if see_score > 0 {
                MVV_LVA_OFFSET + see_score
            } else {
                BAD_CAPTURE_SCORE + see_score
            }
        } else if killers[0] == Some(mv) || killers[1] == Some(mv) {
            KILLER_MOVE_SCORE
        } else {
            history[mv.from_idx() as usize][mv.to_idx() as usize]
        }
    }
}

/// Ranking for quiescence.
pub struct QSearchPolicy;

impl MoveScoringPolicy for QSearchPolicy {
    open spec fn spec_score(b: Board, mv: Move, killers: [Option<Move>; 2], tt_move: Option<Move>, history: [[i32; 64]; 64]) -> int {
        qsearch_score(b, mv)
    }

    fn score(
        board: &Board,
        mv: Move,
        killers: &[Option<Move>; 2],
        tt_move: Option<Move>,
        history: &[[i32; 64]; 64],
    ) -> (r: i32)
    {
        if mv.is_capture() {
            MVV_LVA_OFFSET + see_checked(board, mv)
        } else if mv.is_promotion() {
            if mv.promoted_piece() == Some(Piece::Queen) {
                PROMOTION_SCORE
            } else {
                PROMOTION_SCORE / 2
            }
        } else {
            0
        }
    }
}

/// Sorts `moves` best first by the scores `P` gives them.
pub fn sort_moves<P: MoveScoringPolicy>(
    board: &Board,
    moves: &mut MoveBuffer,
    killers: &[Option<Move>; 2],
    tt_move: Option<Move>,
    history: &[[i32; 64]; 64],
)
    requires
        board.positions.wf(),
        old(moves).wf(),
    ensures
        final(moves).wf(),
        final(moves)@.to_multiset() == old(moves)@.to_multiset(),
        final(moves)@.len() == old(moves)@.len(),
        forall|i: int, j: int|
            0 <= i < j < final(moves)@.len() ==> P::spec_score(*board, #[trigger] final(moves)@[i], *killers, tt_move, *history)
                >= P::spec_score(*board, #[trigger] final(moves)@[j], *killers, tt_move, *history),
{
    let n = moves.len();
    let mut scores: Vec<i32> = Vec::new();
    let mut i: usize = 0;
    while i < n
        invariant
            board.positions.wf(),
            n == moves@.len(),
            i <= n,
            scores@.len() == i,
            forall|j: int| 0 <= j < i ==> #[trigger] scores@[j] == P::spec_score(*board, moves@[j], *killers, tt_move, *history),
        decreases n - i,
    {
        let m = match moves.get(i) {
            Some(m) => m,
            None => Move(0),
        };
        scores.push(P::score(board, m, killers, tt_move, history));
        i = i + 1;
    }
    let ghost orig = moves@;
    let mut k: usize = 0;
    while k < n
        invariant
            moves.wf(),
            n == moves@.len(),
            n == scores@.len(),
            k <= n,
            moves@.to_multiset() == orig.to_multiset(),
            forall|j: int| 0 <= j < n ==> #[trigger] scores@[j] == P::spec_score(*board, moves@[j], *killers, tt_move, *history),
            forall|a: int, b: int| 0 <= a < b < k ==> scores@[a] >= scores@[b],
            forall|a: int, b: int| 0 <= a < k <= b < n ==> scores@[a] >= scores@[b],
        decreases n - k,
    {
        let mut best = k;
        let mut j = k + 1;
        while j < n
            invariant
                n == scores@.len(),
                k < n,
                k <= best < j <= n,
                forall|t: int| k <= t < j ==> scores@[t] <= scores@[best as int],
            decreases n - j,
        {
            if scores[j] > scores[best] {
                best = j;
            }
            j = j + 1;
        }
        proof {
            crate::move_picker::lemma_swap_multiset(moves@, k as int, best as int);
        }
        moves.swap(k, best);
        let sk = scores[k];
        let sb = scores[best];
        scores.set(k, sb);
        scores.set(best, sk);
        k = k + 1;
    }
    proof {
        assert forall|a: int, b: int| 0 <= a < b < moves@.len() implies P::spec_score(*board, #[trigger] moves@[a], *killers, tt_move, *history)
            >= P::spec_score(*board, #[trigger] moves@[b], *killers, tt_move, *history) by {
            assert(scores@[a] >= scores@[b]);
        }
    }
}

} // verus!
