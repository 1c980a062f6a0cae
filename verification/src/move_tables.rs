use vstd::prelude::*;
use crate::bitboard::{BitBoard, bit_of, lemma_bit_zero, lemma_bit_full, lemma_bit_single, group_bits};
use vstd::std_specs::bits::{u64_trailing_zeros, u64_leading_zeros};
use crate::components::Side;
use crate::direction::{Direction, dir_deltas, spec_get_dir};

verus! {

broadcast use group_bits;

pub open spec fn iabs(x: int) -> int {
    if x < 0 {
        -x
    } else {
        x
    }
}

pub open spec fn on_board(r: int, f: int) -> bool {
    0 <= r < 8 && 0 <= f < 8
}

/// A knight on `from` attacks `to`.
pub open spec fn knight_target(from: int, to: int) -> bool {
    let dr = iabs(to / 8 - from / 8);
    let df = iabs(to % 8 - from % 8);
    (dr == 1 && df == 2) || (dr == 2 && df == 1)
}

/// A king on `from` attacks `to`.
pub open spec fn king_target(from: int, to: int) -> bool {
    let dr = iabs(to / 8 - from / 8);
    let df = iabs(to % 8 - from % 8);
    dr <= 1 && df <= 1 && !(dr == 0 && df == 0)
}

/// A pawn of `side` on `from` attacks `to`.
pub open spec fn pawn_attack_target(from: int, to: int, side: Side) -> bool {
    &&& iabs(to % 8 - from % 8) == 1
    &&& if side == Side::White {
        to / 8 == from / 8 + 1
    } else {
        to / 8 == from / 8 - 1
    }
}

/// The squares reached walking from (`r`, `f`) in steps of (`dr`, `df`): each square up to and
/// including the first one in `occ`, stopping at the edge; at most `fuel` steps.
pub open spec fn slide_set(r: int, f: int, dr: int, df: int, occ: u64, fuel: nat) -> Set<int>
    decreases fuel,
{
    if fuel == 0 {
        Set::empty()
    } else {
        let nr = r + dr;
        let nf = f + df;
        if !on_board(nr, nf) {
            Set::empty()
        } else if bit_of(occ, nr * 8 + nf) {
            Set::empty().insert(nr * 8 + nf)
        } else {
            slide_set(nr, nf, dr, df, occ, (fuel - 1) as nat).insert(nr * 8 + nf)
        }
    }
}

/// Squares a sliding piece on `sq` reaches in direction value `d`, blocked by `occ`.
pub open spec fn dir_slide(sq: int, d: i8, occ: u64) -> Set<int> {
    slide_set(sq / 8, sq % 8, dir_deltas(d).0, dir_deltas(d).1, occ, 8)
}

/// Squares a rook on `sq` attacks, with `occ` the occupied squares.
pub open spec fn rook_set(sq: int, occ: u64) -> Set<int> {
    dir_slide(sq, 8, occ) + dir_slide(sq, -8i8, occ) + dir_slide(sq, 1, occ) + dir_slide(sq, -1i8, occ)
}

/// Squares a bishop on `sq` attacks, with `occ` the occupied squares.
pub open spec fn bishop_set(sq: int, occ: u64) -> Set<int> {
    dir_slide(sq, 9, occ) + dir_slide(sq, -7i8, occ) + dir_slide(sq, -9i8, occ) + dir_slide(sq, 7, occ)
}

/// The squares of a ray on an empty board whose next step along the ray stays on the board.
pub open spec fn inner_set(r: int, f: int, dr: int, df: int, fuel: nat) -> Set<int>
    decreases fuel,
{
    if fuel == 0 {
        Set::empty()
    } else {
        let nr = r + dr;
        let nf = f + df;
        if !on_board(nr, nf) || !on_board(nr + dr, nf + df) {
            Set::empty()
        } else {
            inner_set(nr, nf, dr, df, (fuel - 1) as nat).insert(nr * 8 + nf)
        }
    }
}

pub open spec fn dir_inner(sq: int, d: i8) -> Set<int> {
    inner_set(sq / 8, sq % 8, dir_deltas(d).0, dir_deltas(d).1, 8)
}

/// The squares whose occupancy decides a rook's (or bishop's) attacks from `sq`.
pub open spec fn mask_set(sq: int, is_rook: bool) -> Set<int> {
    if is_rook {
        dir_inner(sq, 8) + dir_inner(sq, -8i8) + dir_inner(sq, 1) + dir_inner(sq, -1i8)
    } else {
        dir_inner(sq, 9) + dir_inner(sq, -7i8) + dir_inner(sq, -9i8) + dir_inner(sq, 7)
    }
}

/// The squares strictly between `a` and `b` when they share a rank, file or diagonal;
/// no square otherwise.
pub open spec fn between_set(a: int, b: int) -> Set<int> {
    if a == b || spec_get_dir(a, b) == 0 {
        Set::empty()
    } else {
        dir_slide(a, spec_get_dir(a, b), 0u64 | (1u64 << (b as u64))).remove(b)
    }
}

/// `bb` holds exactly the squares of `s`.
pub open spec fn bits_are(bb: u64, s: Set<int>) -> bool {
    forall|t: int| 0 <= t < 64 ==> (#[trigger] bit_of(bb, t) <==> s.contains(t))
}


/// Adds square (`r`, `f`) to `bb` when it lies on the board.
fn add_target(bb: u64, r: i64, f: i64) -> (out: u64)
    requires
        -16 <= r <= 16,
        -16 <= f <= 16,
    ensures
        forall|t: int| 0 <= t < 64 ==> #[trigger] bit_of(out, t) == (bit_of(bb, t) || (on_board(r as int, f as int) && t == r * 8 + f)),
{
    if 0 <= r && r < 8 && 0 <= f && f < 8 {
        let sq = (r * 8 + f) as u64;
        bb | (1u64 << sq)
    } else {
        bb
    }
}

/// Squares a knight on `sq` attacks.
pub fn knight_attacks(sq: usize) -> (r: BitBoard)
    requires
        sq < 64,
    ensures
        forall|t: int| 0 <= t < 64 ==> (#[trigger] r.has(t) <==> knight_target(sq as int, t)),
{
    let r = (sq / 8) as i64;
    let f = (sq % 8) as i64;
    let mut bb: u64 = 0;
    bb = add_target(bb, r + 1, f + 2);
    bb = add_target(bb, r + 1, f - 2);
    bb = add_target(bb, r - 1, f + 2);
    bb = add_target(bb, r - 1, f - 2);
    bb = add_target(bb, r + 2, f + 1);
    bb = add_target(bb, r + 2, f - 1);
    bb = add_target(bb, r - 2, f + 1);
    bb = add_target(bb, r - 2, f - 1);
    proof {
        assert forall|t: int| 0 <= t < 64 implies (#[trigger] bit_of(bb, t) <==> knight_target(sq as int, t)) by {
            lemma_bit_zero(t);
            assert(t == (t / 8) * 8 + t % 8);
        }
    }
    BitBoard(bb)
}

/// Squares a king on `sq` attacks.
pub fn king_attacks(sq: usize) -> (r: BitBoard)
    requires
        sq < 64,
    ensures
        forall|t: int| 0 <= t < 64 ==> (#[trigger] r.has(t) <==> king_target(sq as int, t)),
{
    let r = (sq / 8) as i64;
    let f = (sq % 8) as i64;
    let mut bb: u64 = 0;
    bb = add_target(bb, r + 1, f - 1);
    bb = add_target(bb, r + 1, f);
    bb = add_target(bb, r + 1, f + 1);
    bb = add_target(bb, r, f - 1);
    bb = add_target(bb, r, f + 1);
    bb = add_target(bb, r - 1, f - 1);
    bb = add_target(bb, r - 1, f);
    bb = add_target(bb, r - 1, f + 1);
    proof {
        assert forall|t: int| 0 <= t < 64 implies (#[trigger] bit_of(bb, t) <==> king_target(sq as int, t)) by {
            lemma_bit_zero(t);
            assert(t == (t / 8) * 8 + t % 8);
        }
    }
    BitBoard(bb)
}

/// Squares a pawn of `side` on `sq` attacks.
pub fn pawn_attacks(sq: usize, side: Side) -> (r: BitBoard)
    requires
        sq < 64,
    ensures
        forall|t: int| 0 <= t < 64 ==> (#[trigger] r.has(t) <==> pawn_attack_target(sq as int, t, side)),
{
    let r = (sq / 8) as i64;
    let f = (sq % 8) as i64;
    let dr: i64 = if side == Side::White { 1 } else { -1 };
    let mut bb: u64 = 0;
    bb = add_target(bb, r + dr, f - 1);
    bb = add_target(bb, r + dr, f + 1);
    proof {
        assert forall|t: int| 0 <= t < 64 implies (#[trigger] bit_of(bb, t) <==> pawn_attack_target(sq as int, t, side)) by {
            lemma_bit_zero(t);
            assert(t == (t / 8) * 8 + t % 8);
        }
    }
    BitBoard(bb)
}

/// Walks from (`r`, `f`) in steps of (`dr`, `df`), collecting squares up to the first occupied one.
fn slide(r: i64, f: i64, dr: i64, df: i64, occ: u64, fuel: u64) -> (out: u64)
    requires
        on_board(r as int, f as int),
        -1 <= dr <= 1,
        -1 <= df <= 1,
        fuel <= 8,
    ensures
        bits_are(out, slide_set(r as int, f as int, dr as int, df as int, occ, fuel as nat)),
    decreases fuel,
{
    if fuel == 0 {
        proof {
            assert forall|t: int| 0 <= t < 64 implies (#[trigger] bit_of(0u64, t) <==> slide_set(r as int, f as int, dr as int, df as int, occ, 0).contains(t)) by {
                lemma_bit_zero(t);
            }
        }
        return 0;
    }
    let nr = r + dr;
    let nf = f + df;
    if !(0 <= nr && nr < 8 && 0 <= nf && nf < 8) {
        proof {
            assert forall|t: int| 0 <= t < 64 implies (#[trigger] bit_of(0u64, t) <==> slide_set(r as int, f as int, dr as int, df as int, occ, fuel as nat).contains(t)) by {
                lemma_bit_zero(t);
            }
        }
        return 0;
    }
    let sq = (nr * 8 + nf) as u64;
    if (occ >> sq) & 1 == 1 {
        proof {
            assert forall|t: int| 0 <= t < 64 implies (#[trigger] bit_of(1u64 << sq, t) <==> slide_set(r as int, f as int, dr as int, df as int, occ, fuel as nat).contains(t)) by {
            }
        }
        1u64 << sq
    } else {
        let rest = slide(nr, nf, dr, df, occ, fuel - 1);
        proof {
            assert forall|t: int| 0 <= t < 64 implies (#[trigger] bit_of(rest | (1u64 << sq), t) <==> slide_set(r as int, f as int, dr as int, df as int, occ, fuel as nat).contains(t)) by {
                assert(bit_of(rest, t) <==> slide_set(nr as int, nf as int, dr as int, df as int, occ, (fuel - 1) as nat).contains(t));
            }
        }
        rest | (1u64 << sq)
    }
}

/// Walks from (`r`, `f`) in steps of (`dr`, `df`) on an empty board, collecting each square
/// whose next step stays on the board.
fn inner_walk(r: i64, f: i64, dr: i64, df: i64, fuel: u64) -> (out: u64)
    requires
        on_board(r as int, f as int),
        -1 <= dr <= 1,
        -1 <= df <= 1,
        fuel <= 8,
    ensures
        bits_are(out, inner_set(r as int, f as int, dr as int, df as int, fuel as nat)),
    decreases fuel,
{
    let nr = r + dr;
    let nf = f + df;
    if fuel == 0 || !(0 <= nr && nr < 8 && 0 <= nf && nf < 8) || !(0 <= nr + dr && nr + dr < 8 && 0 <= nf + df && nf + df < 8) {
        proof {
            assert forall|t: int| 0 <= t < 64 implies (#[trigger] bit_of(0u64, t) <==> inner_set(r as int, f as int, dr as int, df as int, fuel as nat).contains(t)) by {
                lemma_bit_zero(t);
            }
        }
        return 0;
    }
    let sq = (nr * 8 + nf) as u64;
    let rest = inner_walk(nr, nf, dr, df, fuel - 1);
    proof {
        assert forall|t: int| 0 <= t < 64 implies (#[trigger] bit_of(rest | (1u64 << sq), t) <==> inner_set(r as int, f as int, dr as int, df as int, fuel as nat).contains(t)) by {
            assert(bit_of(rest, t) <==> inner_set(nr as int, nf as int, dr as int, df as int, (fuel - 1) as nat).contains(t));
        }
    }
    rest | (1u64 << sq)
}

/// Squares reached from `sq` in direction `dir`, up to and including the first square of `occ`.
pub fn dir_attacks(sq: usize, dir: Direction, occ: u64) -> (r: u64)
    requires
        sq < 64,
    ensures
        bits_are(r, dir_slide(sq as int, dir.0, occ)),
{
    let (dr, df) = dir.deltas();
    slide((sq / 8) as i64, (sq % 8) as i64, dr as i64, df as i64, occ, 8)
}

/// Squares a rook on `sq` attacks, given the occupied squares.
pub fn rook_attacks(sq: usize, occupied: BitBoard) -> (r: BitBoard)
    requires
        sq < 64,
    ensures
        bits_are(r.0, rook_set(sq as int, occupied.0)),
{
    let n = dir_attacks(sq, Direction(8), occupied.0);
    let s = dir_attacks(sq, Direction(-8), occupied.0);
    let e = dir_attacks(sq, Direction(1), occupied.0);
    let w = dir_attacks(sq, Direction(-1), occupied.0);
    BitBoard(n | s | e | w)
}

/// Squares a bishop on `sq` attacks, given the occupied squares.
pub fn bishop_attacks(sq: usize, occupied: BitBoard) -> (r: BitBoard)
    requires
        sq < 64,
    ensures
        bits_are(r.0, bishop_set(sq as int, occupied.0)),
{
    let ne = dir_attacks(sq, Direction(9), occupied.0);
    let se = dir_attacks(sq, Direction(-7), occupied.0);
    let sw = dir_attacks(sq, Direction(-9), occupied.0);
    let nw = dir_attacks(sq, Direction(7), occupied.0);
    BitBoard(ne | se | sw | nw)
}

/// The squares strictly between `from` and `to` on a shared line, none if there is no line.
pub fn ray_between(from: usize, to: usize) -> (r: BitBoard)
    requires
        from < 64,
        to < 64,
    ensures
        bits_are(r.0, between_set(from as int, to as int)),
{
    if from == to {
        proof {
            assert forall|t: int| 0 <= t < 64 implies (#[trigger] bit_of(0u64, t) <==> between_set(from as int, to as int).contains(t)) by {
                lemma_bit_zero(t);
            }
        }
        return BitBoard(0);
    }
    let dir = Direction::get_dir(from, to);
    if dir.0 == 0 {
        proof {
            assert forall|t: int| 0 <= t < 64 implies (#[trigger] bit_of(0u64, t) <==> between_set(from as int, to as int).contains(t)) by {
                lemma_bit_zero(t);
            }
        }
        return BitBoard(0);
    }
    let target = 1u64 << to as u64;
    let occ = 0u64 | target;
    let walk = dir_attacks(from, dir, occ);
    let r = walk & !target;
    proof {
        assert forall|t: int| 0 <= t < 64 implies (#[trigger] bit_of(r, t) <==> between_set(from as int, to as int).contains(t)) by {
        }
    }
    BitBoard(r)
}

/// What is left of the ray `ray` when it stops at its first occupied square, walking up the
/// board (`forward`) or down it: every square of the ray before that square, and that square
/// itself when it holds an enemy piece. With nothing in the way the whole ray is left.
pub open spec fn ray_cut(ray: u64, ally: u64, enemy: u64, forward: bool, t: int) -> bool {
    let blockers = ray & (ally | enemy);
    if blockers == 0 {
        bit_of(ray, t)
    } else {
        let b = if forward { u64_trailing_zeros(blockers) as int } else { 63 - u64_leading_zeros(blockers) };
        bit_of(ray, t) && (if forward { t <= b } else { t >= b }) && !(t == b && bit_of(ally, b))
    }
}

proof fn lemma_mask_upto(p: u64, i: int)
    requires
        p < 64,
        0 <= i < 64,
    ensures
        bit_of((1u64 << p) | (((1u64 << p) - 1) as u64), i) == (i <= p),
{
    let j = i as u64;
    assert(p < 64 && j < 64 ==> ((((1u64 << p) | (((1u64 << p) - 1) as u64)) >> j) & 1u64 == 1u64 <==> j <= p))
        by (bit_vector);
}

proof fn lemma_mask_from(p: u64, i: int)
    requires
        p < 64,
        0 <= i < 64,
    ensures
        bit_of(!(((1u64 << p) - 1) as u64), i) == (i >= p),
{
    let j = i as u64;
    assert(p < 64 && j < 64 ==> (((!(((1u64 << p) - 1) as u64)) >> j) & 1u64 == 1u64 <==> j >= p)) by (bit_vector);
}

/// Precomputed-style lookups of the attack patterns.
pub struct MoveTables {
    pub unit: (),
}

impl MoveTables {
    /// The lookups.
    pub fn new() -> (r: Self) {
        MoveTables { unit: () }
    }

    /// The lookups, built the same way as by `new`.
    pub fn const_new() -> (r: Self) {
        MoveTables { unit: () }
    }

    /// Cuts the ray `ray` at its first occupied square, walking up the board when `forward`
    /// and down it otherwise: the squares before it stay, and the square itself stays when it
    /// holds an enemy piece rather than one of `ally_pieces`.
    pub fn ray_until_blocker(&self, ray: BitBoard, ally_pieces: BitBoard, enemy_pieces: BitBoard, forward: bool) -> (r: BitBoard)
        ensures
            forall|t: int| 0 <= t < 64 ==> (#[trigger] bit_of(r.0, t) <==> ray_cut(ray.0, ally_pieces.0, enemy_pieces.0, forward, t)),
    {
        let blockers = ray.and(ally_pieces.or(enemy_pieces));
        if blockers.0 == 0 {
            return ray;
        }
        let maybe_blocker = if forward { blockers.const_lsb() } else { blockers.const_msb() };
        match maybe_blocker {
            Some(index) => {
                let blocker_mask = 1u64 << index;
                proof {
                    lemma_bit_single(index, index as int);
                    lemma_bit_zero(index as int);
                }
                let low = blocker_mask - 1;
                let mask_up_to_blocker = if forward { blocker_mask | low } else { !low };
                let ray_up_to_blocker = ray.0 & mask_up_to_blocker;
                let r = if (blocker_mask & ally_pieces.0) != 0 {
                    BitBoard(ray_up_to_blocker & !blocker_mask)
                } else {
                    BitBoard(ray_up_to_blocker)
                };
                proof {
                    assert((blocker_mask & ally_pieces.0) != 0 <==> bit_of(ally_pieces.0, index as int)) by {
                        assert(blocker_mask == 1u64 << index);
                        let m = blocker_mask;
                        let a = ally_pieces.0;
                        assert(index < 64 && m == 1u64 << index ==> ((m & a) != 0 <==> (a >> index) & 1u64 == 1u64))
                            by (bit_vector);
                    }
                    assert forall|t: int| 0 <= t < 64 implies (#[trigger] bit_of(r.0, t) <==> ray_cut(ray.0, ally_pieces.0, enemy_pieces.0, forward, t)) by {
                        lemma_bit_single(index, t);
                        if forward {
                            lemma_mask_upto(index, t);
                        } else {
                            lemma_mask_from(index, t);
                        }
                    }
                }
                r
            },
            None => ray,
        }
    }

    /// The squares whose occupancy decides a rook's (`is_rook`) or bishop's attacks from `from`:
    /// each ray from the square without its last square at the board's edge.
    pub fn generate_sliding_attack_mask(&self, from: usize, is_rook: bool) -> (r: BitBoard)
        requires
            from < 64,
        ensures
            bits_are(r.0, mask_set(from as int, is_rook)),
    {
        let rr = (from / 8) as i64;
        let ff = (from % 8) as i64;
        if is_rook {
            let a = inner_walk(rr, ff, 1, 0, 8);
            let b = inner_walk(rr, ff, -1, 0, 8);
            let c = inner_walk(rr, ff, 0, 1, 8);
            let d = inner_walk(rr, ff, 0, -1, 8);
            BitBoard(a | b | c | d)
        } else {
            let a = inner_walk(rr, ff, 1, 1, 8);
            let b = inner_walk(rr, ff, -1, 1, 8);
            let c = inner_walk(rr, ff, -1, -1, 8);
            let d = inner_walk(rr, ff, 1, -1, 8);
            BitBoard(a | b | c | d)
        }
    }

    /// Squares a rook on `from` may move to: its attacks without its own pieces.
    pub fn get_rook_moves(&self, from: usize, ally_pieces: BitBoard, enemy_pieces: BitBoard) -> (r: BitBoard)
        requires
            from < 64,
        ensures
            bits_are(r.0, rook_set(from as int, ally_pieces.0 | enemy_pieces.0).filter(|t: int| !bit_of(ally_pieces.0, t))),
    {
        let blockers = ally_pieces.or(enemy_pieces);
        let attacks = rook_attacks(from, blockers);
        attacks.and(ally_pieces.not())
    }

    /// Squares a bishop on `from` may move to: its attacks without its own pieces.
    pub fn get_bishop_moves(&self, from: usize, ally_pieces: BitBoard, enemy_pieces: BitBoard) -> (r: BitBoard)
        requires
            from < 64,
        ensures
            bits_are(r.0, bishop_set(from as int, ally_pieces.0 | enemy_pieces.0).filter(|t: int| !bit_of(ally_pieces.0, t))),
    {
        let blockers = ally_pieces.or(enemy_pieces);
        let attacks = bishop_attacks(from, blockers);
        attacks.and(ally_pieces.not())
    }

    /// Squares a queen on `from` may move to.
    pub fn get_queen_moves(&self, from: usize, ally_pieces: BitBoard, enemy_pieces: BitBoard) -> (r: BitBoard)
        requires
            from < 64,
        ensures
            bits_are(
                r.0,
                (rook_set(from as int, ally_pieces.0 | enemy_pieces.0) + bishop_set(from as int, ally_pieces.0 | enemy_pieces.0)).filter(
                    |t: int| !bit_of(ally_pieces.0, t),
                ),
            ),
    {
        self.get_rook_moves(from, ally_pieces, enemy_pieces).or(self.get_bishop_moves(from, ally_pieces, enemy_pieces))
    }

    /// Squares a pawn of `side` on `from` attacks.
    pub fn get_pawn_attacks(&self, from: usize, side: Side) -> (r: BitBoard)
        requires
            from < 64,
        ensures
            forall|t: int| 0 <= t < 64 ==> (#[trigger] r.has(t) <==> pawn_attack_target(from as int, t, side)),
    {
        pawn_attacks(from, side)
    }

    /// Squares a knight on `from` attacks.
    pub fn knight_moves(&self, from: usize) -> (r: BitBoard)
        requires
            from < 64,
        ensures
            forall|t: int| 0 <= t < 64 ==> (#[trigger] r.has(t) <==> knight_target(from as int, t)),
    {
        knight_attacks(from)
    }

    /// Squares a king on `from` attacks.
    pub fn king_moves(&self, from: usize) -> (r: BitBoard)
        requires
            from < 64,
        ensures
            forall|t: int| 0 <= t < 64 ==> (#[trigger] r.has(t) <==> king_target(from as int, t)),
    {
        king_attacks(from)
    }

    /// The pushes of a pawn of `side` on `from`: one square forward when it is empty, and two
    /// from the starting rank when both are empty.
    pub fn get_pawn_pushes(&self, from: usize, side: Side, ally_pieces: BitBoard, enemy_pieces: BitBoard) -> (r: BitBoard)
        requires
            from < 64,
        ensures
            forall|t: int| 0 <= t < 64 ==> (#[trigger] r.has(t) <==> pawn_push_target(from as int, t, side, ally_pieces.0 | enemy_pieces.0)),
    {
        let occupied = ally_pieces.or(enemy_pieces);
        let rank = (from / 8) as i64;
        let file = (from % 8) as i64;
        let dr: i64 = if side == Side::White { 1 } else { -1 };
        let start: i64 = if side == Side::White { 1 } else { 6 };
        let mut moves: u64 = 0;
        let one = rank + dr;
        if 0 <= one && one < 8 {
            let s1 = (one * 8 + file) as usize;
            if !occupied.contains_square(s1) {
                moves = moves | (1u64 << s1 as u64);
                if rank == start {
                    let two = one + dr;
                    let s2 = (two * 8 + file) as usize;
                    if !occupied.contains_square(s2) {
                        moves = moves | (1u64 << s2 as u64);
                    }
                }
            }
        }
        proof {
            assert forall|t: int| 0 <= t < 64 implies (#[trigger] bit_of(moves, t) <==> pawn_push_target(from as int, t, side, occupied.0)) by {
                lemma_bit_zero(t);
                assert(t == (t / 8) * 8 + t % 8);
            }
        }
        BitBoard(moves)
    }

    /// Squares in direction `dir` from `from` up to the board's edge; none for a value that is
    /// no direction.
    pub fn get_ray(&self, from: usize, dir: Direction) -> (r: BitBoard)
        requires
            from < 64,
        ensures
            crate::direction::dir_index(dir.0) < 8 ==> bits_are(r.0, dir_slide(from as int, dir.0, 0u64)),
            crate::direction::dir_index(dir.0) == 8 ==> r.0 == 0,
    {
        if dir.index() == 8 {
            return BitBoard(0);
        }
        BitBoard(dir_attacks(from, dir, 0))
    }

    /// Squares strictly between two squares on a shared line.
    pub fn get_ray_between(&self, from: usize, to: usize) -> (r: BitBoard)
        requires
            from < 64,
            to < 64,
        ensures
            bits_are(r.0, between_set(from as int, to as int)),
    {
        ray_between(from, to)
    }

    /// Squares a bishop on `from` attacks, with every piece of `occupied` blocking.
    pub fn get_bishop_attacks_generic(&self, from: usize, occupied: BitBoard) -> (r: BitBoard)
        requires
            from < 64,
        ensures
            bits_are(r.0, bishop_set(from as int, occupied.0)),
    {
        bishop_attacks(from, occupied)
    }

    /// Squares a rook on `from` attacks, with every piece of `occupied` blocking.
    pub fn get_rook_attacks_generic(&self, from: usize, occupied: BitBoard) -> (r: BitBoard)
        requires
            from < 64,
        ensures
            bits_are(r.0, rook_set(from as int, occupied.0)),
    {
        rook_attacks(from, occupied)
    }

    /// Squares a rook on `from` attacks, with `blockers` the occupied squares.
    pub fn get_rook_attacks_bb(&self, from: usize, blockers: BitBoard) -> (r: BitBoard)
        requires
            from < 64,
        ensures
            bits_are(r.0, rook_set(from as int, blockers.0)),
    {
        rook_attacks(from, blockers)
    }

    /// Squares a bishop on `from` attacks, with `blockers` the occupied squares.
    pub fn get_bishop_attacks_bb(&self, from: usize, blockers: BitBoard) -> (r: BitBoard)
        requires
            from < 64,
        ensures
            bits_are(r.0, bishop_set(from as int, blockers.0)),
    {
        bishop_attacks(from, blockers)
    }
}

/// A pawn of `side` on `from` can push to `to` with `occ` occupied.
pub open spec fn pawn_push_target(from: int, to: int, side: Side, occ: u64) -> bool {
    let dr = if side == Side::White { 1int } else { -1int };
    let start = if side == Side::White { 1int } else { 6int };
    let one = (from / 8 + dr) * 8 + from % 8;
    &&& to % 8 == from % 8
    &&& 0 <= from / 8 + dr < 8
    &&& !bit_of(occ, one)
    &&& (to == one || (from / 8 == start && to == one + dr * 8 && !bit_of(occ, to)))
}

} // verus!
