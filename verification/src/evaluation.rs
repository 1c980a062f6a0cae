use vstd::prelude::*;
use vstd::std_specs::bits::u64_trailing_zeros;
use crate::attack_data::occupied;
use crate::bitboard::{BitBoard, bit_of, count_bits, count_in, lemma_count_in, lemma_count_bits_bound, group_bits};
use crate::board::Board;
use crate::board_state::BoardState;
use crate::components::{Piece, PieceInfo, Side, WHITE_CASTLED, BLACK_CASTLED};
use crate::move_buffer::MoveBuffer;
use crate::move_tables::{rook_set, bishop_set, knight_target, rook_attacks, bishop_attacks, knight_attacks};
use crate::pawn_tables::{PawnTables, in_mask, adjacent_file, tables_ok, fdist, ahead};
use crate::attack_data::ortho_bb;
use crate::move_gen::{attacks_from, piece_reaches, get_piece_attacks, piece_targets};
use crate::params::{TunableParams, params_ok, weight_ok, WEIGHT_LIMIT};
use crate::score::{Score, div_trunc, taper_value, TOTAL_PHASE, ENDGAME_PHASE};
use crate::board::phase_sum;

verus! {

broadcast use group_bits;

/// Squares where a white knight may stand as an outpost: files b to g of the fourth to sixth
/// ranks.
pub const WHITE_OUTPOST_MASK: u64 = 0x00007E7E7E000000;

/// Squares where a black knight may stand as an outpost: files b to g of the third to fifth
/// ranks.
pub const BLACK_OUTPOST_MASK: u64 = 0x0000007E7E7E0000;

/// The squares of each file.
pub const FILE_MASKS: [u64; 8] = [
    0x0101010101010101,
    0x0202020202020202,
    0x0404040404040404,
    0x0808080808080808,
    0x1010101010101010,
    0x2020202020202020,
    0x4040404040404040,
    0x8080808080808080,
];

/// Danger, by attack units, of the pieces bearing on a king's zone.
pub const SAFETY_TABLE: [i32; 101] = [
    0, 0, 0, 0, 0, 1, 1, 2, 2, 3,
    4, 5, 6, 8, 10, 12, 14, 17, 20, 23,
    27, 31, 36, 41, 46, 52, 58, 65, 72, 80,
    88, 97, 106, 116, 126, 137, 148, 160, 172, 185,
    199, 213, 228, 243, 259, 276, 293, 311, 330, 349,
    369, 390, 411, 433, 456, 479, 503, 528, 554, 580,
    607, 635, 664, 693, 723, 754, 786, 819, 852, 886,
    921, 957, 994, 1032, 1070, 1110, 1150, 1191, 1233, 1276,
    1320, 1365, 1411, 1458, 1506, 1555, 1605, 1656, 1708, 1761,
    1815, 1870, 1926, 1983, 2041, 2100, 2160, 2221, 2283, 2346,
    2410,
];

/// Attack units an attacker without a queen loses.
pub const NO_QUEEN_BONUS: u32 = 8;

/// Largest attack-unit index of the safety table.
pub const SAFETY_MAX: usize = 100;

/// +1 for white, -1 for black.
pub open spec fn sign(side: Side) -> int {
    if side == Side::White {
        1
    } else {
        -1
    }
}

/// Sum of `f` over `0..n`.
pub open spec fn sum_to(f: spec_fn(int) -> int, n: int) -> int
    decreases n,
{
    if n <= 0 {
        0
    } else {
        sum_to(f, n - 1) + f(n - 1)
    }
}

/// A square seen from `side`: itself for white, its mirror across the middle for black.
pub open spec fn relative_sq(side: Side, s: int) -> int {
    if side == Side::White {
        s
    } else {
        (7 - s / 8) * 8 + s % 8
    }
}

/// Number of pieces of `side` of kind `p`.
pub open spec fn cnt(pos: BoardState, side: Side, p: Piece) -> int {
    count_bits(pos.piece_bb(side, p), 64) as int
}

// ---------------------------------------------------------------- material

/// Material, white less black: each kind's weight by the count difference, and the bishop
/// pair bonus for a side with two bishops or more.
pub open spec fn material_term(pos: BoardState, p: TunableParams, mg: bool) -> int {
    let w = |s: Score| if mg { s.mg as int } else { s.eg as int };
    w(p.material[0]) * (cnt(pos, Side::White, Piece::Pawn) - cnt(pos, Side::Black, Piece::Pawn))
        + w(p.material[1]) * (cnt(pos, Side::White, Piece::Knight) - cnt(pos, Side::Black, Piece::Knight))
        + w(p.material[2]) * (cnt(pos, Side::White, Piece::Bishop) - cnt(pos, Side::Black, Piece::Bishop))
        + w(p.material[3]) * (cnt(pos, Side::White, Piece::Rook) - cnt(pos, Side::Black, Piece::Rook))
        + w(p.material[4]) * (cnt(pos, Side::White, Piece::Queen) - cnt(pos, Side::Black, Piece::Queen))
        + (if cnt(pos, Side::White, Piece::Bishop) >= 2 { w(p.bishop_pair_bonus) } else { 0 })
        - (if cnt(pos, Side::Black, Piece::Bishop) >= 2 { w(p.bishop_pair_bonus) } else { 0 })
}

/// `w * (a - b)` with its bound.
fn weighted_diff(w: i32, a: u32, b: u32) -> (r: i64)
    requires
        -WEIGHT_LIMIT <= w <= WEIGHT_LIMIT,
        a <= 64,
        b <= 64,
    ensures
        r == w * (a - b),
        -137_438_953_408 <= r <= 137_438_953_408,
{
    proof {
        assert(-137_438_953_408 <= w * (a - b) <= 137_438_953_408) by (nonlinear_arith)
            requires
                -2_147_483_647 <= w <= 2_147_483_647,
                -64 <= a - b <= 64;
    }
    (w as i64) * ((a as i64) - (b as i64))
}

/// The material score, white less black.
pub fn eval_material(board: &Board, params: &TunableParams) -> (r: (i64, i64))
    requires
        params_ok(*params),
    ensures
        r.0 == material_term(board.positions, *params, true),
        r.1 == material_term(board.positions, *params, false),
        -858_993_458_800 <= r.0 <= 858_993_458_800,
        -858_993_458_800 <= r.1 <= 858_993_458_800,
{
    let pieces = [Piece::Pawn, Piece::Knight, Piece::Bishop, Piece::Rook, Piece::Queen];
    let mut mg: i64 = 0;
    let mut eg: i64 = 0;
    let ghost pos = board.positions;
    let mut counts_w = [0u32; 5];
    let mut counts_b = [0u32; 5];
    let mut k: usize = 0;
    while k < 5
        invariant
            k <= 5,
            pieces@ == seq![Piece::Pawn, Piece::Knight, Piece::Bishop, Piece::Rook, Piece::Queen],
            forall|j: int| 0 <= j < k ==> #[trigger] counts_w[j] == cnt(pos, Side::White, pieces@[j]),
            forall|j: int| 0 <= j < k ==> #[trigger] counts_b[j] == cnt(pos, Side::Black, pieces@[j]),
            forall|j: int| 0 <= j < k ==> counts_w[j] <= 64 && counts_b[j] <= 64,
            pos == board.positions,
        decreases 5 - k,
    {
        counts_w[k] = board.positions.get_piece_bb(Side::White, pieces[k]).pop_count();
        counts_b[k] = board.positions.get_piece_bb(Side::Black, pieces[k]).pop_count();
        k = k + 1;
    }
    let m = &params.material;
    proof {
        assert(weight_ok(m[0]) && weight_ok(m[1]) && weight_ok(m[2]) && weight_ok(m[3]) && weight_ok(m[4]));
    }
    mg = weighted_diff(m[0].mg, counts_w[0], counts_b[0]) + weighted_diff(m[1].mg, counts_w[1], counts_b[1])
        + weighted_diff(m[2].mg, counts_w[2], counts_b[2]) + weighted_diff(m[3].mg, counts_w[3], counts_b[3])
        + weighted_diff(m[4].mg, counts_w[4], counts_b[4]);
    eg = weighted_diff(m[0].eg, counts_w[0], counts_b[0]) + weighted_diff(m[1].eg, counts_w[1], counts_b[1])
        + weighted_diff(m[2].eg, counts_w[2], counts_b[2]) + weighted_diff(m[3].eg, counts_w[3], counts_b[3])
        + weighted_diff(m[4].eg, counts_w[4], counts_b[4]);
    if counts_w[2] >= 2 {
        mg = mg + params.bishop_pair_bonus.mg as i64;
        eg = eg + params.bishop_pair_bonus.eg as i64;
    }
    if counts_b[2] >= 2 {
        mg = mg - params.bishop_pair_bonus.mg as i64;
        eg = eg - params.bishop_pair_bonus.eg as i64;
    }
    (mg, eg)
}

// ---------------------------------------------------------------- position

/// The piece-square weight index of `side`'s `piece` on `s`.
pub open spec fn pst_index(piece: Piece, side: Side, s: int) -> int {
    piece.spec_index() * 64 + relative_sq(side, s)
}

/// A knight of `side` on `s` stands on an outpost: within its outpost squares, backed by a
/// pawn of its own diagonally behind, and out of reach of enemy pawns.
pub open spec fn outpost(pos: BoardState, side: Side, s: int) -> bool {
    let mask = if side == Side::White { WHITE_OUTPOST_MASK } else { BLACK_OUTPOST_MASK };
    let own = pos.piece_bb(side, Piece::Pawn);
    let their = pos.piece_bb(side.spec_flip(), Piece::Pawn);
    &&& bit_of(mask, s)
    &&& exists|t: int| 0 <= t < 64 && in_mask(3, side, s, t) && #[trigger] bit_of(own, t)
    &&& !exists|t: int| 0 <= t < 64 && in_mask(3, side.spec_flip(), s, t) && #[trigger] bit_of(their, t)
}

/// Some square of `bb` lies on file `f`.
pub open spec fn on_file(bb: u64, f: int) -> bool {
    exists|t: int| 0 <= t < 64 && t % 8 == f && #[trigger] bit_of(bb, t)
}

/// Some pawn of `side` stands on file `f`.
pub open spec fn pawn_on_file(pos: BoardState, side: Side, f: int) -> bool {
    on_file(pos.piece_bb(side, Piece::Pawn), f)
}

/// The value `v` of a piece of `side`, white positive.
pub open spec fn signed(side: Side, v: int) -> int {
    if side == Side::White {
        v
    } else {
        -v
    }
}

/// The positional value of what stands on `s`, white positive: its piece-square weight, an
/// outpost bonus for a knight, an open or half-open file bonus for a rook.
pub open spec fn position_at(pos: BoardState, p: TunableParams, s: int, mg: bool) -> int {
    let w = |x: Score| if mg { x.mg as int } else { x.eg as int };
    match pos.mb()[s] {
        Some(info) => signed(info.side, w(p.psts[pst_index(info.piece, info.side, s)]) + (if info.piece == Piece::Knight
            && outpost(pos, info.side, s) {
            w(p.knight_outpost_bonus)
        } else {
            0
        }) + (if info.piece == Piece::Rook && !pawn_on_file(pos, info.side, s % 8) {
            if !pawn_on_file(pos, info.side.spec_flip(), s % 8) {
                w(p.rook_open_file_bonus)
            } else {
                w(p.rook_semi_file_bonus)
            }
        } else {
            0
        })),
        None => 0,
    }
}

/// Whether some square is in both `a` and `b`.
fn any_common(a: u64, b: u64) -> (r: bool)
    ensures
        r == exists|t: int| 0 <= t < 64 && bit_of(a, t) && #[trigger] bit_of(b, t),
{
    let x = a & b;
    proof {
        crate::bitboard::lemma_nonzero_has_bit(x);
        if x != 0 {
            let i = choose|i: int| 0 <= i < 64 && bit_of(x, i);
            assert(bit_of(a, i) && bit_of(b, i));
        } else {
            assert forall|t: int| 0 <= t < 64 && bit_of(a, t) implies !#[trigger] bit_of(b, t) by {
                assert(!bit_of(x, t));
            }
        }
    }
    x != 0
}

/// Whether some square of `bb` lies in the mask `mask`, whose squares are those where `f`
/// holds.
fn mask_meets(mask: u64, bb: u64, Ghost(f): Ghost<spec_fn(int) -> bool>) -> (r: bool)
    requires
        forall|t: int| 0 <= t < 64 ==> #[trigger] bit_of(mask, t) == f(t),
    ensures
        r == exists|t: int| 0 <= t < 64 && f(t) && #[trigger] bit_of(bb, t),
{
    let r = any_common(mask, bb);
    proof {
        if r {
            let t = choose|t: int| 0 <= t < 64 && bit_of(mask, t) && #[trigger] bit_of(bb, t);
            assert(f(t));
        }
        if exists|t: int| 0 <= t < 64 && f(t) && #[trigger] bit_of(bb, t) {
            let t = choose|t: int| 0 <= t < 64 && f(t) && #[trigger] bit_of(bb, t);
            assert(bit_of(mask, t));
        }
    }
    r
}

/// Whether some square of `bb` lies on file `f`.
fn file_has(bb: u64, f: usize) -> (r: bool)
    requires
        f < 8,
    ensures
        r == on_file(bb, f as int),
{
    let board = BitBoard(bb);
    let mut rank: usize = 0;
    while rank < 8
        invariant
            rank <= 8,
            f < 8,
            board.0 == bb,
            forall|t: int| 0 <= t < rank * 8 + f && t % 8 == f ==> !bit_of(bb, t),
        decreases 8 - rank,
    {
        if board.contains_square(rank * 8 + f) {
            return true;
        }
        rank = rank + 1;
    }
    false
}

/// Whether a pawn of `side` stands on file `f`.
fn pawn_on_file_check(pos: &BoardState, side: Side, f: usize) -> (r: bool)
    requires
        f < 8,
    ensures
        r == pawn_on_file(*pos, side, f as int),
{
    file_has(pos.get_piece_bb(side, Piece::Pawn).0, f)
}

proof fn lemma_side_index(side: Side)
    ensures
        Side::from_index(side.spec_index() as int) == side,
        side.spec_index() < 2,
{
}

/// The positional value of what stands on square `s`, white positive.
fn position_at_exec(pos: &BoardState, params: &TunableParams, tables: &PawnTables, s: usize) -> (r: (i64, i64))
    requires
        pos.wf(),
        params_ok(*params),
        tables_ok(*tables),
        s < 64,
    ensures
        r.0 == position_at(*pos, *params, s as int, true),
        r.1 == position_at(*pos, *params, s as int, false),
        -6_442_450_941 <= r.0 <= 6_442_450_941,
        -6_442_450_941 <= r.1 <= 6_442_450_941,
{
    proof {
        pos.lemma_mb_len();
    }
    match pos.mailbox()[s] {
        None => (0, 0),
        Some(info) => {
            let side = info.side;
            let si = side.index();
            proof {
                lemma_side_index(side);
                lemma_side_index(side.spec_flip());
            }
            let rel = if side == Side::White { s } else { (7 - s / 8) * 8 + s % 8 };
            let w = params.psts[info.piece.index() * 64 + rel];
            proof {
                assert(weight_ok(params.psts[(info.piece.spec_index() * 64 + rel) as int]));
            }
            let mut mg = w.mg as i64;
            let mut eg = w.eg as i64;
            if info.piece == Piece::Knight {
                let mask = if side == Side::White { WHITE_OUTPOST_MASK } else { BLACK_OUTPOST_MASK };
                let own = pos.get_piece_bb(side, Piece::Pawn).0;
                let their = pos.get_piece_bb(side.flip(), Piece::Pawn).0;
                let in_area = BitBoard(mask).contains_square(s);
                let supported = any_common(tables.pawn_backward_support_masks[si][s].0, own);
                let attackable = any_common(tables.pawn_backward_support_masks[side.flip().index()][s].0, their);
                proof {
                    let sup = tables.pawn_backward_support_masks[si as int][s as int].0;
                    let att = tables.pawn_backward_support_masks[side.spec_flip().spec_index() as int][s as int].0;
                    assert forall|t: int| 0 <= t < 64 implies #[trigger] bit_of(sup, t) == in_mask(3, side, s as int, t) by {}
                    assert forall|t: int| 0 <= t < 64 implies #[trigger] bit_of(att, t) == in_mask(3, side.spec_flip(), s as int, t) by {}
                    assert((in_area && supported && !attackable) == outpost(*pos, side, s as int));
                }
                if in_area && supported && !attackable {
                    mg = mg + params.knight_outpost_bonus.mg as i64;
                    eg = eg + params.knight_outpost_bonus.eg as i64;
                }
            }
            if info.piece == Piece::Rook {
                if !pawn_on_file_check(pos, side, s % 8) {
                    if !pawn_on_file_check(pos, side.flip(), s % 8) {
                        mg = mg + params.rook_open_file_bonus.mg as i64;
                        eg = eg + params.rook_open_file_bonus.eg as i64;
                    } else {
                        mg = mg + params.rook_semi_file_bonus.mg as i64;
                        eg = eg + params.rook_semi_file_bonus.eg as i64;
                    }
                }
            }
            proof {
                assert(pos.mb()[s as int] == Some(info));
                assert(rel == relative_sq(side, s as int));
            }
            if side == Side::White {
                (mg, eg)
            } else {
                (-mg, -eg)
            }
        },
    }
}

/// The positional score, white less black: piece-square weights, knight outposts and rooks
/// on open or half-open files.
pub fn eval_position(board: &Board, params: &TunableParams, tables: &PawnTables) -> (r: (i64, i64))
    requires
        board.positions.wf(),
        params_ok(*params),
        tables_ok(*tables),
    ensures
        r.0 == sum_to(|s: int| position_at(board.positions, *params, s, true), 64),
        r.1 == sum_to(|s: int| position_at(board.positions, *params, s, false), 64),
        -429_496_729_400 <= r.0 <= 429_496_729_400,
        -429_496_729_400 <= r.1 <= 429_496_729_400,
{
    let ghost fm = |s: int| position_at(board.positions, *params, s, true);
    let ghost fe = |s: int| position_at(board.positions, *params, s, false);
    let mut mg: i64 = 0;
    let mut eg: i64 = 0;
    let mut s: usize = 0;
    while s < 64
        invariant
            s <= 64,
            board.positions.wf(),
            params_ok(*params),
            tables_ok(*tables),
            fm == (|q: int| position_at(board.positions, *params, q, true)),
            fe == (|q: int| position_at(board.positions, *params, q, false)),
            mg == sum_to(fm, s as int),
            eg == sum_to(fe, s as int),
            -6_442_450_941 * s <= mg <= 6_442_450_941 * s,
            -6_442_450_941 * s <= eg <= 6_442_450_941 * s,
        decreases 64 - s,
    {
        let (a, b) = position_at_exec(&board.positions, params, tables, s);
        mg = mg + a;
        eg = eg + b;
        s = s + 1;
    }
    (mg, eg)
}

// ---------------------------------------------------------------- pawn structure

/// Number of pawns of `side` on file `f` among the first `n` ranks.
pub open spec fn file_pawns(pos: BoardState, side: Side, f: int, n: int) -> int
    decreases n,
{
    if n <= 0 {
        0
    } else {
        file_pawns(pos, side, f, n - 1) + (if bit_of(pos.piece_bb(side, Piece::Pawn), (n - 1) * 8 + f) { 1int } else { 0int })
    }
}

/// The rank of `s` counted from `side`'s own first rank.
pub open spec fn relative_rank(side: Side, s: int) -> int {
    if side == Side::White {
        s / 8
    } else {
        7 - s / 8
    }
}

/// No pawn of `side` stands on a file beside that of `s`.
#[verifier::opaque]
pub open spec fn isolated(pos: BoardState, side: Side, s: int) -> bool {
    !exists|t: int| 0 <= t < 64 && adjacent_file(s % 8, t) && #[trigger] bit_of(pos.piece_bb(side, Piece::Pawn), t)
}

/// No enemy pawn stands in front of a pawn of `side` on `s`, on its file or a file beside it.
#[verifier::opaque]
pub open spec fn passed(pos: BoardState, side: Side, s: int) -> bool {
    !exists|t: int|
        0 <= t < 64 && in_mask(0, side, s, t) && #[trigger] bit_of(pos.piece_bb(side.spec_flip(), Piece::Pawn), t)
}

/// The square in front of a pawn of `side` on `s` is occupied, and no pawn of its own stands
/// diagonally behind it.
#[verifier::opaque]
pub open spec fn backward(pos: BoardState, side: Side, s: int) -> bool {
    &&& exists|t: int| 0 <= t < 64 && in_mask(2, side, s, t) && #[trigger] bit_of(occupied(pos), t)
    &&& !exists|t: int| 0 <= t < 64 && in_mask(3, side, s, t) && #[trigger] bit_of(pos.piece_bb(side, Piece::Pawn), t)
}

/// Number of pawns of `side` beside `s` on its rank.
pub open spec fn neighbours(pos: BoardState, side: Side, s: int) -> nat {
    count_in(pos.piece_bb(side, Piece::Pawn), Set::new(|t: int| in_mask(4, Side::White, s, t)), 64)
}

/// The weight `x` in the middle game (`mg`) or the endgame.
pub open spec fn phase_weight(x: Score, mg: bool) -> int {
    if mg {
        x.mg as int
    } else {
        x.eg as int
    }
}

/// The value of a pawn with the given features: the isolated, doubled, passed (at relative
/// rank `rank`) and backward weights where they hold, and the connected bonus `n` times.
pub open spec fn pawn_value(
    p: TunableParams,
    iso: bool,
    dbl: bool,
    pass: bool,
    back: bool,
    n: int,
    rank: int,
    mg: bool,
) -> int {
    (if iso { phase_weight(p.isolated_penalty, mg) } else { 0 }) + (if dbl {
        phase_weight(p.doubled_penalty, mg)
    } else {
        0
    }) + (if pass { phase_weight(p.passed_pawn_scores[rank], mg) } else { 0 }) + (if back {
        phase_weight(p.backward_penalty, mg)
    } else {
        0
    }) + phase_weight(p.connected_bonus, mg) * n
}

/// The pawn-structure value of a pawn of `side` on `s`: isolated and doubled penalties, the
/// passed-pawn weight of its relative rank, the backward penalty, and the connected bonus for
/// each pawn of its own beside it.
pub open spec fn pawn_features(pos: BoardState, p: TunableParams, side: Side, s: int, mg: bool) -> int {
    pawn_value(
        p,
        isolated(pos, side, s),
        file_pawns(pos, side, s % 8, 8) > 1,
        passed(pos, side, s),
        backward(pos, side, s),
        neighbours(pos, side, s) as int,
        relative_rank(side, s),
        mg,
    )
}

/// The pawn-structure value of what stands on `s`, white positive.
pub open spec fn pawn_at(pos: BoardState, p: TunableParams, s: int, mg: bool) -> int {
    match pos.mb()[s] {
        Some(info) => if info.piece == Piece::Pawn {
            signed(info.side, pawn_features(pos, p, info.side, s, mg))
        } else {
            0
        },
        None => 0,
    }
}

/// Number of pawns of `side` on file `f`.
fn file_pawn_count(pos: &BoardState, side: Side, f: usize) -> (r: u32)
    requires
        f < 8,
    ensures
        r == file_pawns(*pos, side, f as int, 8),
        r <= 8,
{
    let pawns = pos.get_piece_bb(side, Piece::Pawn);
    let mut n: u32 = 0;
    let mut rank: usize = 0;
    while rank < 8
        invariant
            rank <= 8,
            f < 8,
            n <= rank,
            pawns.0 == pos.piece_bb(side, Piece::Pawn),
            n == file_pawns(*pos, side, f as int, rank as int),
        decreases 8 - rank,
    {
        if pawns.contains_square(rank * 8 + f) {
            n = n + 1;
        }
        rank = rank + 1;
    }
    n
}

/// The pawn-structure features of a pawn of `side` on `s`: whether it is isolated, passed and
/// backward, and how many pawns of its own stand beside it.
fn pawn_flags(pos: &BoardState, tables: &PawnTables, side: Side, s: usize) -> (r: (bool, bool, bool, u32))
    requires
        tables_ok(*tables),
        s < 64,
    ensures
        r.0 == isolated(*pos, side, s as int),
        r.1 == passed(*pos, side, s as int),
        r.2 == backward(*pos, side, s as int),
        r.3 == neighbours(*pos, side, s as int),
        r.3 <= 64,
{
    let si = side.index();
    proof {
        lemma_side_index(side);
    }
    let own = pos.get_piece_bb(side, Piece::Pawn).0;
    let their = pos.get_piece_bb(side.flip(), Piece::Pawn).0;
    let occ = pos.get_occupied_bb().0;
    assert(occ == occupied(*pos));
    let adj = tables.pawn_adjacent_files_masks[s % 8].0;
    let block = tables.passed_pawn_blocking_masks[si][s].0;
    let front = tables.pawn_front_square_masks[si][s].0;
    let support = tables.pawn_backward_support_masks[si][s].0;
    let conn = tables.connected_pawn_masks[s].0;
    proof {
        assert forall|t: int| 0 <= t < 64 implies #[trigger] bit_of(adj, t) == adjacent_file(s as int % 8, t) by {}
        assert forall|t: int| 0 <= t < 64 implies #[trigger] bit_of(block, t) == in_mask(0, side, s as int, t) by {}
        assert forall|t: int| 0 <= t < 64 implies #[trigger] bit_of(front, t) == in_mask(2, side, s as int, t) by {}
        assert forall|t: int| 0 <= t < 64 implies #[trigger] bit_of(support, t) == in_mask(3, side, s as int, t) by {}
    }
    let has_adj = mask_meets(adj, own, Ghost(|t: int| adjacent_file(s as int % 8, t)));
    let blocked = mask_meets(block, their, Ghost(|t: int| in_mask(0, side, s as int, t)));
    let front_blocked = mask_meets(front, occ, Ghost(|t: int| in_mask(2, side, s as int, t)));
    let supported = mask_meets(support, own, Ghost(|t: int| in_mask(3, side, s as int, t)));
    let count = BitBoard(conn & own).pop_count();
    proof {
        lemma_count_in(own, conn, Set::new(|u: int| in_mask(4, Side::White, s as int, u)), 64);
    }
    proof {
        reveal(isolated);
        reveal(passed);
        reveal(backward);
    }
    (!has_adj, !blocked, front_blocked && !supported, count)
}

/// The value of a pawn with the given features, middle game and endgame.
fn pawn_value_exec(
    params: &TunableParams,
    iso: bool,
    dbl: bool,
    pass: bool,
    back: bool,
    count: u32,
    rank: usize,
) -> (r: (i64, i64))
    requires
        params_ok(*params),
        count <= 64,
        rank < 8,
    ensures
        r.0 == pawn_value(*params, iso, dbl, pass, back, count as int, rank as int, true),
        r.1 == pawn_value(*params, iso, dbl, pass, back, count as int, rank as int, false),
        -214_748_364_700 <= r.0 <= 214_748_364_700,
        -214_748_364_700 <= r.1 <= 214_748_364_700,
{
    proof {
        assert(weight_ok(params.passed_pawn_scores[rank as int]));
    }
    let mut mg: i64 = 0;
    let mut eg: i64 = 0;
    if iso {
        mg = mg + params.isolated_penalty.mg as i64;
        eg = eg + params.isolated_penalty.eg as i64;
    }
    if dbl {
        mg = mg + params.doubled_penalty.mg as i64;
        eg = eg + params.doubled_penalty.eg as i64;
    }
    if pass {
        mg = mg + params.passed_pawn_scores[rank].mg as i64;
        eg = eg + params.passed_pawn_scores[rank].eg as i64;
    }
    if back {
        mg = mg + params.backward_penalty.mg as i64;
        eg = eg + params.backward_penalty.eg as i64;
    }
    proof {
        let c = params.connected_bonus;
        assert(-137_438_953_408 <= c.mg * count <= 137_438_953_408 && -137_438_953_408 <= c.eg * count <= 137_438_953_408) by (nonlinear_arith)
            requires
                -2_147_483_647 <= c.mg <= 2_147_483_647,
                -2_147_483_647 <= c.eg <= 2_147_483_647,
                count <= 64;
    }
    mg = mg + (params.connected_bonus.mg as i64) * (count as i64);
    eg = eg + (params.connected_bonus.eg as i64) * (count as i64);
    (mg, eg)
}

/// The pawn-structure value of what stands on `s`, white positive.
fn pawn_at_exec(pos: &BoardState, params: &TunableParams, tables: &PawnTables, s: usize) -> (r: (i64, i64))
    requires
        pos.wf(),
        params_ok(*params),
        tables_ok(*tables),
        s < 64,
    ensures
        r.0 == pawn_at(*pos, *params, s as int, true),
        r.1 == pawn_at(*pos, *params, s as int, false),
        -429_496_729_400 <= r.0 <= 429_496_729_400,
        -429_496_729_400 <= r.1 <= 429_496_729_400,
{
    proof {
        pos.lemma_mb_len();
    }
    match pos.mailbox()[s] {
        None => (0, 0),
        Some(info) => {
            if info.piece != Piece::Pawn {
                return (0, 0);
            }
            let side = info.side;
            let si = side.index();
            proof {
                lemma_side_index(side);
                lemma_side_index(side.spec_flip());
            }
            let file = s % 8;
            let rel_rank = if side == Side::White { s / 8 } else { 7 - s / 8 };
            let (iso, pass, back, count) = pawn_flags(pos, tables, side, s);
            proof {
                assert(weight_ok(params.passed_pawn_scores[rel_rank as int]));
            }
            let dbl = file_pawn_count(pos, side, file) > 1;
            let (mg, eg) = pawn_value_exec(params, iso, dbl, pass, back, count, rel_rank);
            proof {
                assert(rel_rank == relative_rank(side, s as int));
                assert(pos.mb()[s as int] == Some(info));
            }
            if side == Side::White {
                (mg, eg)
            } else {
                (-mg, -eg)
            }
        },
    }
}

/// The pawn-structure score, white less black.
pub fn eval_pawn_structure(board: &Board, params: &TunableParams, tables: &PawnTables) -> (r: (i64, i64))
    requires
        board.positions.wf(),
        params_ok(*params),
        tables_ok(*tables),
    ensures
        r.0 == sum_to(|s: int| pawn_at(board.positions, *params, s, true), 64),
        r.1 == sum_to(|s: int| pawn_at(board.positions, *params, s, false), 64),
        -27_487_790_681_600 <= r.0 <= 27_487_790_681_600,
        -27_487_790_681_600 <= r.1 <= 27_487_790_681_600,
{
    let ghost fm = |s: int| pawn_at(board.positions, *params, s, true);
    let ghost fe = |s: int| pawn_at(board.positions, *params, s, false);
    let mut mg: i64 = 0;
    let mut eg: i64 = 0;
    let mut s: usize = 0;
    while s < 64
        invariant
            s <= 64,
            board.positions.wf(),
            params_ok(*params),
            tables_ok(*tables),
            fm == (|q: int| pawn_at(board.positions, *params, q, true)),
            fe == (|q: int| pawn_at(board.positions, *params, q, false)),
            mg == sum_to(fm, s as int),
            eg == sum_to(fe, s as int),
            -429_496_729_400 * s <= mg <= 429_496_729_400 * s,
            -429_496_729_400 * s <= eg <= 429_496_729_400 * s,
        decreases 64 - s,
    {
        let (a, b) = pawn_at_exec(&board.positions, params, tables, s);
        mg = mg + a;
        eg = eg + b;
        s = s + 1;
    }
    (mg, eg)
}

// ---------------------------------------------------------------- king safety

/// `t` lies in the pawn shield of a king of `side` on `k`: on the king's file or one beside
/// it, one or two ranks in front of the king.
pub open spec fn shield_zone(side: Side, k: int, t: int) -> bool {
    fdist(k, t) <= 1 && 1 <= ahead(side, k, t) <= 2
}

/// A pawn of `side` stands on file `f` in the shield of its king on `k`.
pub open spec fn shield_file(pos: BoardState, side: Side, k: int, f: int) -> bool {
    exists|t: int| 0 <= t < 64 && t % 8 == f && shield_zone(side, k, t) && #[trigger] bit_of(pos.piece_bb(side, Piece::Pawn), t)
}

/// Number of files, among the file of a king of `side` on `k` and those beside it, with a
/// pawn of its own in the king's shield.
#[verifier::opaque]
pub open spec fn shield_files(pos: BoardState, side: Side, k: int) -> int {
    (if k % 8 >= 1 && shield_file(pos, side, k, k % 8 - 1) { 1int } else { 0int }) + (if shield_file(pos, side, k, k % 8) {
        1int
    } else {
        0int
    }) + (if k % 8 <= 6 && shield_file(pos, side, k, k % 8 + 1) { 1int } else { 0int })
}

/// The penalty the king of `side` takes for file `f`: none off the board, where a pawn of its
/// own stands on the file, or where no enemy rook or queen does; else the half-open weight
/// when an enemy pawn stands on it, and the open weight when none does.
#[verifier::opaque]
pub open spec fn file_penalty(pos: BoardState, p: TunableParams, side: Side, f: int, mg: bool) -> int {
    if 0 <= f < 8 && !pawn_on_file(pos, side, f) && on_file(ortho_bb(pos, side.spec_flip()), f) {
        if pawn_on_file(pos, side.spec_flip(), f) {
            phase_weight(p.semi_open_file_penalty, mg)
        } else {
            phase_weight(p.open_file_penalty, mg)
        }
    } else {
        0
    }
}

/// Attack units a piece of kind `piece` bearing on the king's zone brings.
pub open spec fn unit_weight(piece: Piece) -> int {
    match piece {
        Piece::Knight => 2,
        Piece::Bishop => 2,
        Piece::Rook => 3,
        Piece::Queen => 5,
        _ => 0,
    }
}

/// A piece of kind `piece` of the opponent of `side` on `s` attacks a square of the zone of
/// `side`'s king on `k`.
pub open spec fn zone_hit(pos: BoardState, side: Side, piece: Piece, s: int, k: int) -> bool {
    exists|t: int|
        0 <= t < 64 && in_mask(5, side, k, t) && #[trigger] attacks_from(piece, side.spec_flip(), s, t, occupied(pos))
}

/// Attack units brought by the enemy pieces of kind `piece` on squares `0..n` that bear on
/// the zone of `side`'s king on `k`.
pub open spec fn piece_units(pos: BoardState, side: Side, piece: Piece, k: int, n: int) -> int
    decreases n,
{
    if n <= 0 {
        0
    } else {
        piece_units(pos, side, piece, k, n - 1) + (if bit_of(pos.piece_bb(side.spec_flip(), piece), n - 1) && zone_hit(
            pos,
            side,
            piece,
            n - 1,
            k,
        ) {
            unit_weight(piece)
        } else {
            0
        })
    }
}

/// Attack units on the zone of `side`'s king on `k`: those of knights, bishops, rooks and
/// queens, and two more when both a rook and a queen bear on it.
pub open spec fn attack_units(pos: BoardState, side: Side, k: int) -> int {
    let q = piece_units(pos, side, Piece::Queen, k, 64);
    let r = piece_units(pos, side, Piece::Rook, k, 64);
    piece_units(pos, side, Piece::Knight, k, 64) + piece_units(pos, side, Piece::Bishop, k, 64) + r + q + (if q > 0 && r > 0 {
        2int
    } else {
        0int
    })
}

/// The danger to `side`'s king on `k`: nothing up to two attack units; else the safety table
/// at the units, less eight when the enemy has no queen, capped at the table's end.
#[verifier::opaque]
pub open spec fn danger(pos: BoardState, side: Side, k: int) -> int {
    let u = attack_units(pos, side, k);
    if u > 2 {
        let v = if pos.piece_bb(side.spec_flip(), Piece::Queen) == 0 {
            if u >= 8 {
                u - 8
            } else {
                0
            }
        } else {
            u
        };
        SAFETY_TABLE[if v < 100 { v } else { 100 }] as int
    } else {
        0
    }
}

/// `side` has castled.
pub open spec fn castled(rights: u8, side: Side) -> bool {
    rights & (if side == Side::White { WHITE_CASTLED } else { BLACK_CASTLED }) != 0
}

/// The shelter of `side`'s king on `k`: the castling bonus, the full shield bonus for three
/// shielded files and the partial one for two, and the file penalties of its file and those
/// beside it.
pub open spec fn shelter(b: Board, p: TunableParams, side: Side, k: int, mg: bool) -> int {
    let pos = b.positions;
    let files = shield_files(pos, side, k);
    (if castled(b.castling_rights.0, side) { phase_weight(p.castling_bonus, mg) } else { 0 }) + (if files == 3 {
        phase_weight(p.pawn_shield_full, mg)
    } else if files == 2 {
        phase_weight(p.pawn_shield_partial, mg)
    } else {
        0
    }) + file_penalty(pos, p, side, k % 8 - 1, mg) + file_penalty(pos, p, side, k % 8, mg) + file_penalty(
        pos,
        p,
        side,
        k % 8 + 1,
        mg,
    )
}

/// The safety value of `side`'s king on `k`, white positive: its shelter, less, in the
/// middle game only, the danger it stands in.
pub open spec fn side_safety(b: Board, p: TunableParams, side: Side, k: int, mg: bool) -> int {
    signed(side, shelter(b, p, side, k, mg) - (if mg { danger(b.positions, side, k) } else { 0 }))
}

/// The king-safety value of `side`, white positive: that of its king on the lowest square of
/// its king board, nothing when it has no king.
pub open spec fn king_term(b: Board, p: TunableParams, side: Side, mg: bool) -> int {
    let kbb = b.positions.piece_bb(side, Piece::King);
    if kbb != 0 {
        side_safety(b, p, side, u64_trailing_zeros(kbb) as int, mg)
    } else {
        0
    }
}

/// The two halves of the shield of a king of `side` on `k`, one and two ranks in front,
/// together make up its shield zone.
proof fn lemma_shield_zone(side: Side, k: int, t: int)
    requires
        0 <= k < 64,
        0 <= t < 64,
    ensures
        shield_zone(side, k, t) == (in_mask(1, side, k, t) || (if side == Side::White {
            k / 8 < 6 && in_mask(1, side, k + 8, t)
        } else {
            k / 8 > 1 && in_mask(1, side, k - 8, t)
        })),
{
    assert((k + 8) % 8 == k % 8 && (k + 8) / 8 == k / 8 + 1);
    assert((k - 8) % 8 == k % 8 && (k - 8) / 8 == k / 8 - 1);
}

/// Whether a shielded square of `sb` lies on file `f` tells whether the shield of `side`'s
/// king on `k` holds a pawn on that file.
proof fn lemma_shield_file(pos: BoardState, side: Side, k: int, sb: u64, f: int)
    requires
        forall|t: int| 0 <= t < 64 ==> #[trigger] bit_of(sb, t) == (bit_of(pos.piece_bb(side, Piece::Pawn), t) && shield_zone(side, k, t)),
    ensures
        on_file(sb, f) == shield_file(pos, side, k, f),
{
    if on_file(sb, f) {
        let t = choose|t: int| 0 <= t < 64 && t % 8 == f && #[trigger] bit_of(sb, t);
        assert(bit_of(pos.piece_bb(side, Piece::Pawn), t));
    }
    if shield_file(pos, side, k, f) {
        let t = choose|t: int|
            0 <= t < 64 && t % 8 == f && shield_zone(side, k, t) && #[trigger] bit_of(pos.piece_bb(side, Piece::Pawn), t);
        assert(bit_of(sb, t));
    }
}

/// Number of files, among that of `side`'s king on `k` and those beside it, with a pawn of
/// its own in the king's shield.
fn shield_file_count(pos: &BoardState, tables: &PawnTables, side: Side, k: usize) -> (r: u32)
    requires
        tables_ok(*tables),
        k < 64,
    ensures
        r == shield_files(*pos, side, k as int),
{
    let si = side.index();
    proof {
        lemma_side_index(side);
    }
    let own = pos.get_piece_bb(side, Piece::Pawn).0;
    let rank = k / 8;
    let near = tables.king_shield_zone_masks[si][k].0;
    let far = if side == Side::White && rank < 6 {
        tables.king_shield_zone_masks[si][k + 8].0
    } else if side == Side::Black && rank > 1 {
        tables.king_shield_zone_masks[si][k - 8].0
    } else {
        0
    };
    let sb = own & (near | far);
    proof {
        assert forall|t: int| 0 <= t < 64 implies #[trigger] bit_of(sb, t) == (bit_of(pos.piece_bb(side, Piece::Pawn), t)
            && shield_zone(side, k as int, t)) by {
            lemma_shield_zone(side, k as int, t);
            if !(side == Side::White && rank < 6) && !(side == Side::Black && rank > 1) {
                crate::bitboard::lemma_bit_zero(t);
            }
        }
        lemma_shield_file(*pos, side, k as int, sb, k as int % 8 - 1);
        lemma_shield_file(*pos, side, k as int, sb, k as int % 8);
        lemma_shield_file(*pos, side, k as int, sb, k as int % 8 + 1);
    }
    let file = k % 8;
    let mut n: u32 = 0;
    proof {
        reveal(shield_files);
    }
    if file >= 1 && file_has(sb, file - 1) {
        n = n + 1;
    }
    if file_has(sb, file) {
        n = n + 1;
    }
    if file <= 6 && file_has(sb, file + 1) {
        n = n + 1;
    }
    n
}

/// The penalty `side`'s king takes for file `f`, middle game and endgame.
fn file_penalty_exec(pos: &BoardState, params: &TunableParams, side: Side, f: usize) -> (r: (i64, i64))
    requires
        params_ok(*params),
        f < 8,
    ensures
        r.0 == file_penalty(*pos, *params, side, f as int, true),
        r.1 == file_penalty(*pos, *params, side, f as int, false),
        -2_147_483_647 <= r.0 <= 2_147_483_647,
        -2_147_483_647 <= r.1 <= 2_147_483_647,
{
    let opp = side.flip();
    let majors = pos.get_ortho_sliders_bb(opp).0;
    proof {
        reveal(file_penalty);
    }
    if !pawn_on_file_check(pos, side, f) && file_has(majors, f) {
        if pawn_on_file_check(pos, opp, f) {
            (params.semi_open_file_penalty.mg as i64, params.semi_open_file_penalty.eg as i64)
        } else {
            (params.open_file_penalty.mg as i64, params.open_file_penalty.eg as i64)
        }
    } else {
        (0, 0)
    }
}

/// Attack units brought by the enemy pieces of kind `piece` bearing on the zone `zone` of
/// `side`'s king on `k`.
fn piece_units_exec(board: &Board, side: Side, piece: Piece, k: usize, zone: u64) -> (r: u32)
    requires
        k < 64,
        piece != Piece::Pawn,
        forall|t: int| 0 <= t < 64 ==> #[trigger] bit_of(zone, t) == in_mask(5, side, k as int, t),
    ensures
        r == piece_units(board.positions, side, piece, k as int, 64),
        r <= 320,
{
    let opp = side.flip();
    let bb = *board.positions.get_piece_bb(opp, piece);
    let w: u32 = match piece {
        Piece::Knight => 2,
        Piece::Bishop => 2,
        Piece::Rook => 3,
        Piece::Queen => 5,
        _ => 0,
    };
    let mut units: u32 = 0;
    let mut s: usize = 0;
    while s < 64
        invariant
            s <= 64,
            k < 64,
            piece != Piece::Pawn,
            w == unit_weight(piece),
            bb.0 == board.positions.piece_bb(side.spec_flip(), piece),
            opp == side.spec_flip(),
            forall|t: int| 0 <= t < 64 ==> #[trigger] bit_of(zone, t) == in_mask(5, side, k as int, t),
            units == piece_units(board.positions, side, piece, k as int, s as int),
            units <= 5 * s,
        decreases 64 - s,
    {
        if bb.contains_square(s) {
            let attacks = get_piece_attacks(board, opp, piece, s);
            let hit = mask_meets(zone, attacks.0, Ghost(|t: int| in_mask(5, side, k as int, t)));
            proof {
                if hit {
                    let t = choose|t: int| 0 <= t < 64 && in_mask(5, side, k as int, t) && #[trigger] bit_of(attacks.0, t);
                    assert(attacks.has(t));
                }
                if zone_hit(board.positions, side, piece, s as int, k as int) {
                    let t = choose|t: int|
                        0 <= t < 64 && in_mask(5, side, k as int, t) && #[trigger] attacks_from(
                            piece,
                            side.spec_flip(),
                            s as int,
                            t,
                            occupied(board.positions),
                        );
                    assert(attacks.has(t));
                }
            }
            if hit {
                units = units + w;
            }
        }
        s = s + 1;
    }
    units
}

/// Attack units on the zone of `side`'s king on `k`.
fn calculate_attack_units(board: &Board, tables: &PawnTables, side: Side, k: usize) -> (r: u32)
    requires
        tables_ok(*tables),
        k < 64,
    ensures
        r == attack_units(board.positions, side, k as int),
        r <= 1282,
{
    proof {
        lemma_side_index(side);
    }
    let zone = tables.king_attack_zone_masks[side.index()][k].0;
    let knights = piece_units_exec(board, side, Piece::Knight, k, zone);
    let bishops = piece_units_exec(board, side, Piece::Bishop, k, zone);
    let rooks = piece_units_exec(board, side, Piece::Rook, k, zone);
    let queens = piece_units_exec(board, side, Piece::Queen, k, zone);
    let mut total = knights + bishops + rooks + queens;
    if queens > 0 && rooks > 0 {
        total = total + 2;
    }
    total
}

/// The danger to `side`'s king on `k`.
fn danger_exec(board: &Board, tables: &PawnTables, side: Side, k: usize) -> (r: i32)
    requires
        tables_ok(*tables),
        k < 64,
    ensures
        r == danger(board.positions, side, k as int),
        0 <= r <= 2410,
{
    let mut units = calculate_attack_units(board, tables, side, k);
    proof {
        reveal(danger);
    }
    if units > 2 {
        if board.positions.get_piece_bb(side.flip(), Piece::Queen).0 == 0 {
            units = units.saturating_sub(NO_QUEEN_BONUS);
        }
        let idx: usize = if units < SAFETY_MAX as u32 { units as usize } else { SAFETY_MAX };
        proof {
            assert(forall|i: int| 0 <= i <= 100 ==> 0 <= #[trigger] SAFETY_TABLE[i] <= 2410);
        }
        SAFETY_TABLE[idx]
    } else {
        0
    }
}

/// No file penalty is taken off the board.
proof fn lemma_no_penalty_off_board(pos: BoardState, p: TunableParams, side: Side, mg: bool)
    ensures
        file_penalty(pos, p, side, -1, mg) == 0,
        file_penalty(pos, p, side, 8, mg) == 0,
{
    reveal(file_penalty);
}

/// The shelter of `side`'s king on `k`, middle game and endgame.
fn shelter_exec(board: &Board, params: &TunableParams, tables: &PawnTables, side: Side, k: usize) -> (r: (i64, i64))
    requires
        params_ok(*params),
        tables_ok(*tables),
        k < 64,
    ensures
        r.0 == shelter(*board, *params, side, k as int, true),
        r.1 == shelter(*board, *params, side, k as int, false),
        -10_737_418_235 <= r.0 <= 10_737_418_235,
        -10_737_418_235 <= r.1 <= 10_737_418_235,
{
    let mut mg: i64 = 0;
    let mut eg: i64 = 0;
    if board.castling_rights.has_castled(side) {
        mg = mg + params.castling_bonus.mg as i64;
        eg = eg + params.castling_bonus.eg as i64;
    }
    let files = shield_file_count(&board.positions, tables, side, k);
    if files == 3 {
        mg = mg + params.pawn_shield_full.mg as i64;
        eg = eg + params.pawn_shield_full.eg as i64;
    } else if files == 2 {
        mg = mg + params.pawn_shield_partial.mg as i64;
        eg = eg + params.pawn_shield_partial.eg as i64;
    }
    proof {
        lemma_no_penalty_off_board(board.positions, *params, side, true);
        lemma_no_penalty_off_board(board.positions, *params, side, false);
    }
    let file = k % 8;
    if file >= 1 {
        let (a, b) = file_penalty_exec(&board.positions, params, side, file - 1);
        mg = mg + a;
        eg = eg + b;
    }
    let (a, b) = file_penalty_exec(&board.positions, params, side, file);
    mg = mg + a;
    eg = eg + b;
    if file <= 6 {
        let (a, b) = file_penalty_exec(&board.positions, params, side, file + 1);
        mg = mg + a;
        eg = eg + b;
    }
    (mg, eg)
}

/// The safety value of `side`'s king on `k`, white positive.
fn eval_side_safety(board: &Board, params: &TunableParams, tables: &PawnTables, side: Side, k: usize) -> (r: (i64, i64))
    requires
        params_ok(*params),
        tables_ok(*tables),
        k < 64,
    ensures
        r.0 == side_safety(*board, *params, side, k as int, true),
        r.1 == side_safety(*board, *params, side, k as int, false),
        -12_884_901_882 <= r.0 <= 12_884_901_882,
        -12_884_901_882 <= r.1 <= 12_884_901_882,
{
    let (base_mg, base_eg) = shelter_exec(board, params, tables, side, k);
    let mut mg = base_mg;
    let penalty = danger_exec(board, tables, side, k);
    if penalty > 0 {
        mg = mg - penalty as i64;
    }
    if side == Side::White {
        (mg, base_eg)
    } else {
        (-mg, -base_eg)
    }
}

/// The king-safety score, white less black.
pub fn eval_king_safety(board: &Board, params: &TunableParams, tables: &PawnTables) -> (r: (i64, i64))
    requires
        params_ok(*params),
        tables_ok(*tables),
    ensures
        r.0 == king_term(*board, *params, Side::White, true) + king_term(*board, *params, Side::Black, true),
        r.1 == king_term(*board, *params, Side::White, false) + king_term(*board, *params, Side::Black, false),
        -25_769_803_764 <= r.0 <= 25_769_803_764,
        -25_769_803_764 <= r.1 <= 25_769_803_764,
{
    let mut mg: i64 = 0;
    let mut eg: i64 = 0;
    let sides = [Side::White, Side::Black];
    let mut i: usize = 0;
    while i < 2
        invariant
            i <= 2,
            params_ok(*params),
            tables_ok(*tables),
            sides@ == seq![Side::White, Side::Black],
            mg == (if i >= 1 { king_term(*board, *params, Side::White, true) } else { 0 }) + (if i >= 2 {
                king_term(*board, *params, Side::Black, true)
            } else {
                0
            }),
            eg == (if i >= 1 { king_term(*board, *params, Side::White, false) } else { 0 }) + (if i >= 2 {
                king_term(*board, *params, Side::Black, false)
            } else {
                0
            }),
            -12_884_901_882 * i <= mg <= 12_884_901_882 * i,
            -12_884_901_882 * i <= eg <= 12_884_901_882 * i,
        decreases 2 - i,
    {
        let side = sides[i];
        if let Some(k) = board.positions.get_piece_bb(side, Piece::King).lsb() {
            let (a, b) = eval_side_safety(board, params, tables, side, k as usize);
            mg = mg + a;
            eg = eg + b;
        }
        i = i + 1;
    }
    (mg, eg)
}

// ---------------------------------------------------------------- mobility

/// Number of squares in `s` on the board.
pub open spec fn squares_in(s: Set<int>) -> nat {
    count_in(0xFFFF_FFFF_FFFF_FFFFu64, s, 64)
}

/// Number of moves a piece of kind `piece` of `side` on `s` has: the squares it reaches that
/// hold no piece of its own.
pub open spec fn moves_of(pos: BoardState, side: Side, piece: Piece, s: int) -> nat {
    squares_in(Set::new(|t: int| piece_reaches(piece, s, t, occupied(pos)) && !bit_of(pos.side_bb(side), t)))
}

/// The piece kinds whose mobility counts: knights, bishops, rooks and queens.
pub open spec fn mobile(piece: Piece) -> bool {
    piece == Piece::Knight || piece == Piece::Bishop || piece == Piece::Rook || piece == Piece::Queen
}

/// The mobility value of what stands on `s`, white positive: for a knight, bishop, rook or
/// queen, the per-move weight of its kind times its number of moves.
pub open spec fn mobility_at(pos: BoardState, p: TunableParams, s: int, mg: bool) -> int {
    match pos.mb()[s] {
        Some(info) => if mobile(info.piece) {
            signed(info.side, phase_weight(p.mobility[info.piece.spec_index() as int], mg) * moves_of(pos, info.side, info.piece, s))
        } else {
            0
        },
        None => 0,
    }
}

/// The mobility value of what stands on `s`, white positive.
fn mobility_at_exec(pos: &BoardState, params: &TunableParams, s: usize) -> (r: (i64, i64))
    requires
        pos.wf(),
        params_ok(*params),
        s < 64,
    ensures
        r.0 == mobility_at(*pos, *params, s as int, true),
        r.1 == mobility_at(*pos, *params, s as int, false),
        -137_438_953_408 <= r.0 <= 137_438_953_408,
        -137_438_953_408 <= r.1 <= 137_438_953_408,
{
    proof {
        pos.lemma_mb_len();
    }
    match pos.mailbox()[s] {
        None => (0, 0),
        Some(info) => {
            let piece = info.piece;
            if piece != Piece::Knight && piece != Piece::Bishop && piece != Piece::Rook && piece != Piece::Queen {
                return (0, 0);
            }
            let side = info.side;
            let targets = piece_targets(pos, side, piece, s);
            let count = BitBoard(targets).pop_count();
            let w = params.get_mobility_weight(piece.index());
            proof {
                let set = Set::new(|t: int| piece_reaches(piece, s as int, t, occupied(*pos)) && !bit_of(pos.side_bb(side), t));
                lemma_count_in(0xFFFF_FFFF_FFFF_FFFFu64, targets, set, 64);
                assert(targets & 0xFFFF_FFFF_FFFF_FFFFu64 == targets) by (bit_vector);
                assert(count == moves_of(*pos, side, piece, s as int));
                assert(weight_ok(w));
                assert(-137_438_953_408 <= w.mg * count <= 137_438_953_408 && -137_438_953_408 <= w.eg * count <= 137_438_953_408) by (nonlinear_arith)
                    requires
                        -2_147_483_647 <= w.mg <= 2_147_483_647,
                        -2_147_483_647 <= w.eg <= 2_147_483_647,
                        count <= 64;
                assert(pos.mb()[s as int] == Some(info));
            }
            let mg = (w.mg as i64) * (count as i64);
            let eg = (w.eg as i64) * (count as i64);
            if side == Side::White {
                (mg, eg)
            } else {
                (-mg, -eg)
            }
        },
    }
}

/// The mobility score, white less black: for every knight, bishop, rook and queen, the
/// per-move weight of its kind times its number of moves.
pub fn eval_mobility(board: &Board, params: &TunableParams) -> (r: (i64, i64))
    requires
        board.positions.wf(),
        params_ok(*params),
    ensures
        r.0 == sum_to(|s: int| mobility_at(board.positions, *params, s, true), 64),
        r.1 == sum_to(|s: int| mobility_at(board.positions, *params, s, false), 64),
        -8_796_093_018_112 <= r.0 <= 8_796_093_018_112,
        -8_796_093_018_112 <= r.1 <= 8_796_093_018_112,
{
    let ghost fm = |s: int| mobility_at(board.positions, *params, s, true);
    let ghost fe = |s: int| mobility_at(board.positions, *params, s, false);
    let mut mg: i64 = 0;
    let mut eg: i64 = 0;
    let mut s: usize = 0;
    while s < 64
        invariant
            s <= 64,
            board.positions.wf(),
            params_ok(*params),
            fm == (|q: int| mobility_at(board.positions, *params, q, true)),
            fe == (|q: int| mobility_at(board.positions, *params, q, false)),
            mg == sum_to(fm, s as int),
            eg == sum_to(fe, s as int),
            -137_438_953_408 * s <= mg <= 137_438_953_408 * s,
            -137_438_953_408 * s <= eg <= 137_438_953_408 * s,
        decreases 64 - s,
    {
        let (a, b) = mobility_at_exec(&board.positions, params, s);
        mg = mg + a;
        eg = eg + b;
        s = s + 1;
    }
    (mg, eg)
}

// ---------------------------------------------------------------- the whole evaluation

/// The whole evaluation, white less black, in the middle game (`mg`) or the endgame: material,
/// position, pawn structure, mobility and king safety.
pub open spec fn eval_total(b: Board, p: TunableParams, mg: bool) -> int {
    material_term(b.positions, p, mg) + sum_to(|s: int| position_at(b.positions, p, s, mg), 64) + sum_to(
        |s: int| pawn_at(b.positions, p, s, mg),
        64,
    ) + sum_to(|s: int| mobility_at(b.positions, p, s, mg), 64) + king_term(b, p, Side::White, mg) + king_term(
        b,
        p,
        Side::Black,
        mg,
    )
}

/// The evaluation seen from the side to move: `v` for white, `-v` for black.
pub open spec fn for_mover(stm: Side, v: int) -> int {
    if stm == Side::White {
        v
    } else {
        -v
    }
}

/// The two halves of the evaluation from the side to move's point of view, in 64 bits.
fn eval_totals(board: &Board, params: &TunableParams, tables: &PawnTables) -> (r: (i64, i64))
    requires
        board.positions.wf(),
        params_ok(*params),
        tables_ok(*tables),
    ensures
        r.0 == for_mover(board.stm, eval_total(*board, *params, true)),
        r.1 == for_mover(board.stm, eval_total(*board, *params, false)),
        -42_949_672_940_000 <= r.0 <= 42_949_672_940_000,
        -42_949_672_940_000 <= r.1 <= 42_949_672_940_000,
{
    let (m1, e1) = eval_material(board, params);
    let (m2, e2) = eval_position(board, params, tables);
    let (m3, e3) = eval_pawn_structure(board, params, tables);
    let (m4, e4) = eval_mobility(board, params);
    let (m5, e5) = eval_king_safety(board, params, tables);
    let mg = m1 + m2 + m3 + m4 + m5;
    let eg = e1 + e2 + e3 + e4 + e5;
    proof {
        assert(eval_total(*board, *params, true) == mg);
        assert(eval_total(*board, *params, false) == eg);
    }
    if board.stm == Side::White {
        (mg, eg)
    } else {
        (-mg, -eg)
    }
}

/// The static evaluation of the board from the side to move's point of view, middle game
/// and endgame apart; each half must fit in 32 bits, as the score's halves are 32-bit.
pub fn evaluate(board: &Board, params: &TunableParams, tables: &PawnTables) -> (r: Score)
    requires
        board.positions.wf(),
        params_ok(*params),
        tables_ok(*tables),
        i32::MIN <= for_mover(board.stm, eval_total(*board, *params, true)) <= i32::MAX,
        i32::MIN <= for_mover(board.stm, eval_total(*board, *params, false)) <= i32::MAX,
    ensures
        r.mg == for_mover(board.stm, eval_total(*board, *params, true)),
        r.eg == for_mover(board.stm, eval_total(*board, *params, false)),
{
    let (mg, eg) = eval_totals(board, params, tables);
    Score::new(mg as i32, eg as i32)
}

/// `v` kept within `-i32::MAX..=i32::MAX`.
pub open spec fn clamp_eval(v: int) -> int {
    if v > i32::MAX {
        i32::MAX as int
    } else if v < -(i32::MAX as int) {
        -(i32::MAX as int)
    } else {
        v
    }
}

/// The game phase of the board, as `Board::game_phase` gives it.
pub open spec fn phase_of(b: Board) -> int {
    crate::board::phase_clamp(
        div_trunc((TOTAL_PHASE - phase_sum(b.positions.mb(), 64)) * ENDGAME_PHASE + TOTAL_PHASE / 2, TOTAL_PHASE as int),
    )
}

/// The evaluation of the board as one number from the side to move's point of view: the
/// middle-game and endgame halves blended by the game phase, kept within
/// `-i32::MAX..=i32::MAX`.
pub open spec fn position_value(b: Board, p: TunableParams) -> int {
    clamp_eval(
        taper_value(
            for_mover(b.stm, eval_total(b, p, true)),
            for_mover(b.stm, eval_total(b, p, false)),
            phase_of(b),
        ),
    )
}

impl Board {
    /// The static evaluation from the side to move's point of view, blended by the game
    /// phase.
    pub fn evaluate_position(&self, params: &TunableParams, tables: &PawnTables) -> (r: i32)
        requires
            self.positions.wf(),
            params_ok(*params),
            tables_ok(*tables),
        ensures
            r == position_value(*self, *params),
    {
        let (mg, eg) = eval_totals(self, params, tables);
        let phase = self.game_phase();
        let p = phase.0 as i64;
        proof {
            assert(-0x100_0000_0000_0000 <= mg * (256 - p) <= 0x100_0000_0000_0000) by (nonlinear_arith)
                requires
                    -42_949_672_940_000 <= mg <= 42_949_672_940_000,
                    0 <= p <= 256;
            assert(-0x100_0000_0000_0000 <= eg * p <= 0x100_0000_0000_0000) by (nonlinear_arith)
                requires
                    -42_949_672_940_000 <= eg <= 42_949_672_940_000,
                    0 <= p <= 256;
        }
        let total = mg * (ENDGAME_PHASE as i64 - p) + eg * p;
        let v = if total >= 0 { total / 256 } else { -((-total) / 256) };
        if v > i32::MAX as i64 {
            i32::MAX
        } else if v < -(i32::MAX as i64) {
            -i32::MAX
        } else {
            v as i32
        }
    }
}

} // verus!
