use vstd::prelude::*;
use vstd::std_specs::bits::u64_trailing_zeros;
use crate::bitboard::{BitBoard, bit_of, count_bits, count_in, lemma_bit_zero, lemma_bit_full, lemma_count_in, group_bits};
use crate::board::Board;
use crate::board_state::BoardState;
use crate::components::{Piece, Side};
use crate::move_tables::{
    rook_set, bishop_set, knight_target, king_target, pawn_attack_target, between_set, bits_are,
    rook_attacks, bishop_attacks, knight_attacks, king_attacks, pawn_attacks, ray_between,
};

verus! {

broadcast use group_bits;

/// What move generation needs to know of the checks and pins against one side's king.
#[derive(Clone, Copy, Debug, Default, PartialEq, Eq, Structural)]
pub struct AttackData {
    /// At least one piece attacks the king.
    pub in_check: bool,
    /// More than one piece attacks the king.
    pub double_check: bool,
    /// The pinning pieces and the squares between each of them and the king.
    pub pin_ray_mask: BitBoard,
    /// Squares that block a check or take the checking piece: all squares when not in check,
    /// none in double check.
    pub check_ray_mask: BitBoard,
    /// The checking pieces.
    pub checker_mask: BitBoard,
    /// The king's square.
    pub king_sq: usize,
    /// Squares the other side attacks, seen through the king.
    pub opp_attack_map: BitBoard,
}

/// The occupied squares.
pub open spec fn occupied(pos: BoardState) -> u64 {
    pos.side_bb(Side::White) | pos.side_bb(Side::Black)
}

/// Rooks and queens of `side`.
pub open spec fn ortho_bb(pos: BoardState, side: Side) -> u64 {
    pos.piece_bb(side, Piece::Rook) | pos.piece_bb(side, Piece::Queen)
}

/// Bishops and queens of `side`.
pub open spec fn diag_bb(pos: BoardState, side: Side) -> u64 {
    pos.piece_bb(side, Piece::Bishop) | pos.piece_bb(side, Piece::Queen)
}

/// A piece of `by` on `t` attacks square `k`, `occ` being the occupied squares: seen from `k`,
/// a rook or queen on a rook line, a bishop or queen on a diagonal, a knight a knight's jump
/// away, or a pawn on a square a pawn of the other side on `k` would attack.
pub open spec fn checks_square(pos: BoardState, by: Side, t: int, k: int, occ: u64) -> bool {
    ||| bit_of(ortho_bb(pos, by), t) && rook_set(k, occ).contains(t)
    ||| bit_of(diag_bb(pos, by), t) && bishop_set(k, occ).contains(t)
    ||| bit_of(pos.piece_bb(by, Piece::Knight), t) && knight_target(k, t)
    ||| bit_of(pos.piece_bb(by, Piece::Pawn), t) && pawn_attack_target(k, t, by.spec_flip())
}

/// An enemy slider on `p` that sees the king of `side` on `k` once `side`'s own pieces are
/// taken off the board.
pub open spec fn is_pinner(pos: BoardState, side: Side, k: int, p: int) -> bool {
    let xocc = occupied(pos) ^ pos.side_bb(side);
    let by = side.spec_flip();
    ||| bit_of(ortho_bb(pos, by), p) && rook_set(k, xocc).contains(p)
    ||| bit_of(diag_bb(pos, by), p) && bishop_set(k, xocc).contains(p)
}

/// `p` pins a piece of `side`: a slider as above with exactly one piece of `side` between
/// it and the king.
pub open spec fn pins(pos: BoardState, side: Side, k: int, p: int) -> bool {
    is_pinner(pos, side, k, p) && count_in(pos.side_bb(side), between_set(k, p), 64) == 1
}

/// `t` lies on the pin ray of pinning piece `p`: `p` itself or a square between `p` and the
/// king.
pub open spec fn on_pin_ray(pos: BoardState, side: Side, k: int, p: int, t: int) -> bool {
    pins(pos, side, k, p) && (t == p || between_set(k, p).contains(t))
}

/// The square of the lowest set bit of `x`, 0 for an empty board.
pub open spec fn lowest_or_zero(x: u64) -> int {
    if x == 0 {
        0
    } else {
        u64_trailing_zeros(x) as int
    }
}

/// A piece on `s` of attack kind `kind` (0 rook, 1 bishop, 2 knight, 3 pawn of `by`)
/// attacks `t`, with `occ` the occupied squares.
pub open spec fn kind_hits(kind: u8, by: Side, s: int, t: int, occ: u64) -> bool {
    if kind == 0 {
        rook_set(s, occ).contains(t)
    } else if kind == 1 {
        bishop_set(s, occ).contains(t)
    } else if kind == 2 {
        knight_target(s, t)
    } else {
        pawn_attack_target(s, t, by)
    }
}

/// Some square of `bb` holds an attacker of kind `kind` reaching `t`.
pub open spec fn group_hits(bb: u64, kind: u8, by: Side, t: int, occ: u64) -> bool {
    exists|s: int| 0 <= s < 64 && bit_of(bb, s) && #[trigger] kind_hits(kind, by, s, t, occ)
}

/// `t` is attacked by the opponent of `side`, with the king of `side` (its lowest square,
/// or square 0 when it has none) toggled in the occupancy so that sliders see through it.
pub open spec fn opp_attacks(pos: BoardState, side: Side, t: int) -> bool {
    let by = side.spec_flip();
    let ksq = lowest_or_zero(pos.piece_bb(side, Piece::King));
    let occ = occupied(pos) ^ (1u64 << (ksq as u64));
    let kbb = pos.piece_bb(by, Piece::King);
    ||| group_hits(ortho_bb(pos, by), 0, by, t, occ)
    ||| group_hits(diag_bb(pos, by), 1, by, t, occ)
    ||| group_hits(pos.piece_bb(by, Piece::Knight), 2, by, t, occ)
    ||| group_hits(pos.piece_bb(by, Piece::Pawn), 3, by, t, occ)
    ||| kbb != 0 && king_target(u64_trailing_zeros(kbb) as int, t)
}

/// The squares a piece of attack kind `kind` on `s` attacks.
fn kind_attacks(kind: u8, by: Side, s: usize, occ: u64) -> (r: u64)
    requires
        kind < 4,
        s < 64,
    ensures
        forall|t: int| 0 <= t < 64 ==> #[trigger] bit_of(r, t) == kind_hits(kind, by, s as int, t, occ),
{
    if kind == 0 {
        rook_attacks(s, BitBoard(occ)).0
    } else if kind == 1 {
        bishop_attacks(s, BitBoard(occ)).0
    } else if kind == 2 {
        let b = knight_attacks(s);
        proof {
            assert forall|t: int| 0 <= t < 64 implies #[trigger] bit_of(b.0, t) == kind_hits(kind, by, s as int, t, occ) by {
                assert(b.has(t) == knight_target(s as int, t));
            }
        }
        b.0
    } else {
        let b = pawn_attacks(s, by);
        proof {
            assert forall|t: int| 0 <= t < 64 implies #[trigger] bit_of(b.0, t) == kind_hits(kind, by, s as int, t, occ) by {
                assert(b.has(t) == pawn_attack_target(s as int, t, by));
            }
        }
        b.0
    }
}

/// Adds to `map` every square that a piece of kind `kind` on a square of `bb` attacks.
fn add_hits(map: u64, bb: u64, kind: u8, by: Side, occ: u64) -> (r: u64)
    requires
        kind < 4,
    ensures
        forall|t: int| 0 <= t < 64 ==> #[trigger] bit_of(r, t) == (bit_of(map, t) || group_hits(bb, kind, by, t, occ)),
{
    let mut rest = BitBoard(bb);
    let mut cur = map;
    while rest.0 != 0
        invariant
            kind < 4,
            forall|s: int| 0 <= s < 64 && #[trigger] bit_of(rest.0, s) ==> bit_of(bb, s),
            forall|t: int|
                0 <= t < 64 ==> #[trigger] bit_of(cur, t) == (bit_of(map, t) || exists|s: int|
                    0 <= s < 64 && bit_of(bb, s) && !bit_of(rest.0, s) && #[trigger] kind_hits(kind, by, s, t, occ)),
        decreases rest.0,
    {
        let ghost old_rest = rest.0;
        let s = rest.pop_lsb() as usize;
        let a = kind_attacks(kind, by, s, occ);
        let ghost prev = cur;
        cur = cur | a;
        proof {
            assert forall|t: int| 0 <= t < 64 implies #[trigger] bit_of(cur, t) == (bit_of(map, t) || exists|s2: int|
                0 <= s2 < 64 && bit_of(bb, s2) && !bit_of(rest.0, s2) && #[trigger] kind_hits(kind, by, s2, t, occ)) by {
                if bit_of(prev, t) && !bit_of(map, t) {
                    let s2 = choose|s2: int| 0 <= s2 < 64 && bit_of(bb, s2) && !bit_of(old_rest, s2) && #[trigger] kind_hits(kind, by, s2, t, occ);
                    assert(!bit_of(rest.0, s2));
                }
                if exists|s2: int| 0 <= s2 < 64 && bit_of(bb, s2) && !bit_of(rest.0, s2) && #[trigger] kind_hits(kind, by, s2, t, occ) {
                    let s2 = choose|s2: int| 0 <= s2 < 64 && bit_of(bb, s2) && !bit_of(rest.0, s2) && #[trigger] kind_hits(kind, by, s2, t, occ);
                    if s2 != s {
                        assert(!bit_of(old_rest, s2));
                    }
                }
            }
        }
    }
    proof {
        assert forall|t: int| 0 <= t < 64 implies #[trigger] bit_of(cur, t) == (bit_of(map, t) || group_hits(bb, kind, by, t, occ)) by {
            lemma_bit_zero(0);
            if group_hits(bb, kind, by, t, occ) {
                let s2 = choose|s2: int| 0 <= s2 < 64 && bit_of(bb, s2) && #[trigger] kind_hits(kind, by, s2, t, occ);
                lemma_bit_zero(s2);
            }
        }
    }
    cur
}

/// The squares the opponent of `side` attacks, the king of `side` seen through.
pub fn calculate_opp_attack_map(board: &Board, side: Side) -> (r: BitBoard)
    requires
        board.positions.wf(),
    ensures
        forall|t: int| 0 <= t < 64 ==> (#[trigger] r.has(t) <==> opp_attacks(board.positions, side, t)),
{
    let opponent = side.flip();
    let pos = &board.positions;
    let occupied_bb = pos.get_occupied_bb();
    let king_sq: usize = match pos.get_piece_bb(side, Piece::King).lsb() {
        Some(s) => s as usize,
        None => 0,
    };
    let occ = occupied_bb.0 ^ (1u64 << king_sq as u64);
    let ghost gpos = board.positions;
    proof {
        assert(king_sq as int == lowest_or_zero(gpos.piece_bb(side, Piece::King)));
        assert(occ == occupied(gpos) ^ (1u64 << (lowest_or_zero(gpos.piece_bb(side, Piece::King)) as u64)));
    }
    let m1 = add_hits(0, pos.get_ortho_sliders_bb(opponent).0, 0, opponent, occ);
    let m2 = add_hits(m1, pos.get_diag_sliders_bb(opponent).0, 1, opponent, occ);
    let m3 = add_hits(m2, pos.get_piece_bb(opponent, Piece::Knight).0, 2, opponent, occ);
    let m4 = add_hits(m3, pos.get_piece_bb(opponent, Piece::Pawn).0, 3, opponent, occ);
    let kbb = pos.get_piece_bb(opponent, Piece::King);
    let map = match kbb.lsb() {
        Some(ks) => {
            let ka = king_attacks(ks as usize);
            proof {
                assert forall|t: int| 0 <= t < 64 implies #[trigger] bit_of(ka.0, t) == king_target(ks as int, t) by {
                    assert(ka.has(t) == king_target(ks as int, t));
                }
            }
            m4 | ka.0
        },
        None => m4,
    };
    proof {
        assert forall|t: int| 0 <= t < 64 implies (#[trigger] bit_of(map, t) <==> opp_attacks(board.positions, side, t)) by {
            lemma_bit_zero(t);
            assert(bit_of(m1, t) == group_hits(ortho_bb(gpos, side.spec_flip()), 0, side.spec_flip(), t, occ));
            assert(bit_of(m2, t) == (bit_of(m1, t) || group_hits(diag_bb(gpos, side.spec_flip()), 1, side.spec_flip(), t, occ)));
        }
    }
    BitBoard(map)
}

/// Checks and pins against the king of `side`.
#[verifier::rlimit(40)]
pub fn calculate_attack_data(board: &Board, side: Side) -> (r: AttackData)
    requires
        board.positions.wf(),
    ensures
        forall|t: int| 0 <= t < 64 ==> (#[trigger] r.opp_attack_map.has(t) <==> opp_attacks(board.positions, side, t)),
        board.positions.piece_bb(side, Piece::King) == 0 ==> !r.in_check && !r.double_check && r.pin_ray_mask.0 == 0
            && r.check_ray_mask.0 == !0u64 && r.checker_mask.0 == 0 && r.king_sq == 0,
        board.positions.piece_bb(side, Piece::King) != 0 ==> r.king_sq == u64_trailing_zeros(board.positions.piece_bb(side, Piece::King)),
        board.positions.piece_bb(side, Piece::King) != 0 ==> forall|t: int| 0 <= t < 64 ==> (#[trigger] r.checker_mask.has(t)
            <==> checks_square(board.positions, side.spec_flip(), t, r.king_sq as int, occupied(board.positions))),
        r.in_check == (r.checker_mask.0 != 0),
        r.double_check == (count_bits(r.checker_mask.0, 64) > 1),
        !r.in_check ==> r.check_ray_mask.0 == !0u64,
        r.double_check ==> r.check_ray_mask.0 == 0,
        r.in_check && !r.double_check ==> forall|t: int| 0 <= t < 64 ==> (#[trigger] r.check_ray_mask.has(t) <==> (
            r.checker_mask.has(t) || between_set(r.king_sq as int, u64_trailing_zeros(r.checker_mask.0) as int).contains(t))),
        board.positions.piece_bb(side, Piece::King) != 0 ==> forall|t: int| 0 <= t < 64 ==> (#[trigger] r.pin_ray_mask.has(t)
            <==> exists|p: int| 0 <= p < 64 && #[trigger] on_pin_ray(board.positions, side, r.king_sq as int, p, t)),
        r.king_sq < 64,
{
    let pos = &board.positions;
    let opp_map = calculate_opp_attack_map(board, side);
    let mut attack_data = AttackData {
        in_check: false,
        double_check: false,
        pin_ray_mask: BitBoard(0),
        check_ray_mask: BitBoard(!0u64),
        checker_mask: BitBoard(0),
        king_sq: 0,
        opp_attack_map: opp_map,
    };
    let king_sq = match pos.get_piece_bb(side, Piece::King).lsb() {
        Some(sq) => sq as usize,
        None => {
            proof {
                lemma_bit_zero(0);
                crate::bitboard::lemma_count_bits_zero(64);
            }
            return attack_data;
        },
    };
    attack_data.king_sq = king_sq;
    let opponent = side.flip();
    let occupied_bb = pos.get_occupied_bb();
    let friendly = *pos.get_side_bb(side);
    let opp_ortho = pos.get_ortho_sliders_bb(opponent);
    let opp_diag = pos.get_diag_sliders_bb(opponent);
    let ortho_checkers = rook_attacks(king_sq, occupied_bb).0 & opp_ortho.0;
    let diag_checkers = bishop_attacks(king_sq, occupied_bb).0 & opp_diag.0;
    let ka = knight_attacks(king_sq);
    let pa = pawn_attacks(king_sq, side);
    let knight_checkers = ka.0 & pos.get_piece_bb(opponent, Piece::Knight).0;
    let pawn_checkers = pa.0 & pos.get_piece_bb(opponent, Piece::Pawn).0;
    let checkers = BitBoard(ortho_checkers | diag_checkers | knight_checkers | pawn_checkers);
    proof {
        assert forall|t: int| 0 <= t < 64 implies (#[trigger] checkers.has(t) <==> checks_square(
            board.positions,
            side.spec_flip(),
            t,
            king_sq as int,
            occupied(board.positions),
        )) by {
            assert(ka.has(t) == knight_target(king_sq as int, t));
            assert(pa.has(t) == pawn_attack_target(king_sq as int, t, side));
            assert(side.spec_flip().spec_flip() == side);
        }
    }
    let checker_count = checkers.pop_count();
    if checkers.any() {
        attack_data.in_check = true;
        attack_data.checker_mask = checkers;
        if checker_count > 1 {
            attack_data.double_check = true;
            attack_data.check_ray_mask = BitBoard(0);
        } else {
            let checker_sq = match checkers.lsb() {
                Some(c) => c as usize,
                None => 0,
            };
            let ray = ray_between(king_sq, checker_sq);
            attack_data.check_ray_mask = ray.or(checkers);
        }
    }
    let xray = occupied_bb.0 ^ friendly.0;
    let xray_ortho = rook_attacks(king_sq, BitBoard(xray)).0;
    let xray_diag = bishop_attacks(king_sq, BitBoard(xray)).0;
    let pinners = (xray_ortho & opp_ortho.0) | (xray_diag & opp_diag.0);
    proof {
        assert forall|p: int| 0 <= p < 64 implies (#[trigger] bit_of(pinners, p) <==> is_pinner(board.positions, side, king_sq as int, p)) by {}
    }
    let mut rest = BitBoard(pinners);
    let mut pin: u64 = 0;
    proof {
        assert forall|t: int| 0 <= t < 64 implies (#[trigger] bit_of(pin, t) <==> exists|p: int|
            0 <= p < 64 && !bit_of(rest.0, p) && #[trigger] on_pin_ray(board.positions, side, king_sq as int, p, t)) by {
            lemma_bit_zero(t);
            if exists|p: int| 0 <= p < 64 && !bit_of(rest.0, p) && #[trigger] on_pin_ray(board.positions, side, king_sq as int, p, t) {
                let p = choose|p: int| 0 <= p < 64 && !bit_of(rest.0, p) && #[trigger] on_pin_ray(board.positions, side, king_sq as int, p, t);
                assert(bit_of(pinners, p));
            }
        }
    }
    while rest.0 != 0
        invariant
            king_sq < 64,
            friendly.0 == board.positions.side_bb(side),
            forall|p: int| 0 <= p < 64 ==> (#[trigger] bit_of(pinners, p) <==> is_pinner(board.positions, side, king_sq as int, p)),
            forall|s: int| 0 <= s < 64 && #[trigger] bit_of(rest.0, s) ==> bit_of(pinners, s),
            forall|t: int|
                0 <= t < 64 ==> (#[trigger] bit_of(pin, t) <==> exists|p: int|
                    0 <= p < 64 && !bit_of(rest.0, p) && #[trigger] on_pin_ray(board.positions, side, king_sq as int, p, t)),
        decreases rest.0,
    {
        let ghost old_rest = rest.0;
        let p = rest.pop_lsb() as usize;
        let ray = ray_between(king_sq, p);
        let pinned_on_ray = ray.and(friendly);
        let n = pinned_on_ray.pop_count();
        proof {
            lemma_count_in(friendly.0, ray.0, between_set(king_sq as int, p as int), 64);
        }
        let ghost prev = pin;
        if n == 1 {
            pin = pin | ray.0 | (1u64 << p as u64);
        }
        proof {
            assert forall|t: int| 0 <= t < 64 implies (#[trigger] bit_of(pin, t) <==> exists|p2: int|
                0 <= p2 < 64 && !bit_of(rest.0, p2) && #[trigger] on_pin_ray(board.positions, side, king_sq as int, p2, t)) by {
                if bit_of(prev, t) {
                    let p2 = choose|p2: int| 0 <= p2 < 64 && !bit_of(old_rest, p2) && #[trigger] on_pin_ray(board.positions, side, king_sq as int, p2, t);
                    assert(!bit_of(rest.0, p2));
                }
                if n == 1 && (bit_of(ray.0, t) || t == p) {
                    assert(on_pin_ray(board.positions, side, king_sq as int, p as int, t));
                }
                if exists|p2: int| 0 <= p2 < 64 && !bit_of(rest.0, p2) && #[trigger] on_pin_ray(board.positions, side, king_sq as int, p2, t) {
                    let p2 = choose|p2: int| 0 <= p2 < 64 && !bit_of(rest.0, p2) && #[trigger] on_pin_ray(board.positions, side, king_sq as int, p2, t);
                    if p2 != p {
                        assert(!bit_of(old_rest, p2));
                    }
                }
            }
        }
    }
    attack_data.pin_ray_mask = BitBoard(pin);
    proof {
        lemma_bit_zero(0);
        assert forall|t: int| 0 <= t < 64 implies (#[trigger] attack_data.pin_ray_mask.has(t) <==> exists|p: int|
            0 <= p < 64 && #[trigger] on_pin_ray(board.positions, side, king_sq as int, p, t)) by {
            if exists|p: int| 0 <= p < 64 && #[trigger] on_pin_ray(board.positions, side, king_sq as int, p, t) {
                let p = choose|p: int| 0 <= p < 64 && #[trigger] on_pin_ray(board.positions, side, king_sq as int, p, t);
                lemma_bit_zero(p);
            }
        }
        if !attack_data.in_check {
            crate::bitboard::lemma_count_bits_zero(64);
        }
    }
    attack_data
}

} // verus!
