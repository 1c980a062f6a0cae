use vstd::prelude::*;
use crate::bitboard::{BitBoard, bit_of, lemma_bit_zero, group_bits};
use crate::components::Side;

verus! {

broadcast use group_bits;

/// Masks for pawn structure and king safety, each a set of squares.
pub struct PawnTables {
    /// The files next to each file.
    pub pawn_adjacent_files_masks: [BitBoard; 8],
    /// By side and square: the squares ahead on the pawn's file and the files next to it.
    pub passed_pawn_blocking_masks: [[BitBoard; 64]; 2],
    /// By side and king square: the three squares on the rank in front of the king.
    pub king_shield_zone_masks: [[BitBoard; 64]; 2],
    /// By side and square: the square in front of the pawn.
    pub pawn_front_square_masks: [[BitBoard; 64]; 2],
    /// By side and square: the two squares diagonally behind the pawn.
    pub pawn_backward_support_masks: [[BitBoard; 64]; 2],
    /// By square: the squares beside it on its rank.
    pub connected_pawn_masks: [BitBoard; 64],
    /// By side and king square: the king's file and the files next to it, from one rank behind
    /// to two ranks in front of the king, the king's square aside.
    pub king_attack_zone_masks: [[BitBoard; 64]; 2],
}

pub open spec fn fdist(a: int, b: int) -> int {
    if a % 8 >= b % 8 {
        a % 8 - b % 8
    } else {
        b % 8 - a % 8
    }
}

/// The rank difference from `sq` to `t`, counted forward for `side`.
pub open spec fn ahead(side: Side, sq: int, t: int) -> int {
    if side == Side::White {
        t / 8 - sq / 8
    } else {
        sq / 8 - t / 8
    }
}

/// Square `t` belongs to mask `kind` of `side` and `sq`: 0 passed-pawn blocking, 1 king
/// shield, 2 front square, 3 backward support, 4 connected neighbours, 5 king attack zone.
pub open spec fn in_mask(kind: u8, side: Side, sq: int, t: int) -> bool {
    if kind == 0 {
        fdist(sq, t) <= 1 && ahead(side, sq, t) > 0
    } else if kind == 1 {
        fdist(sq, t) <= 1 && ahead(side, sq, t) == 1
    } else if kind == 2 {
        fdist(sq, t) == 0 && ahead(side, sq, t) == 1
    } else if kind == 3 {
        fdist(sq, t) == 1 && ahead(side, sq, t) == -1
    } else if kind == 4 {
        fdist(sq, t) == 1 && ahead(side, sq, t) == 0
    } else {
        fdist(sq, t) <= 1 && -1 <= ahead(side, sq, t) <= 2 && t != sq
    }
}

/// Whether square `t` belongs to mask `kind` of `side` and `sq`.
fn mask_has(kind: u8, side: Side, sq: usize, t: usize) -> (r: bool)
    requires
        sq < 64,
        t < 64,
    ensures
        r == in_mask(kind, side, sq as int, t as int),
{
    let fd = if sq % 8 >= t % 8 { sq % 8 - t % 8 } else { t % 8 - sq % 8 };
    let sr = (sq / 8) as i64;
    let tr = (t / 8) as i64;
    let ah: i64 = if side == Side::White { tr - sr } else { sr - tr };
    if kind == 0 {
        fd <= 1 && ah > 0
    } else if kind == 1 {
        fd <= 1 && ah == 1
    } else if kind == 2 {
        fd == 0 && ah == 1
    } else if kind == 3 {
        fd == 1 && ah == -1
    } else if kind == 4 {
        fd == 1 && ah == 0
    } else {
        fd <= 1 && -1 <= ah && ah <= 2 && t != sq
    }
}

/// The mask `kind` of `side` and `sq` as a bitboard.
pub fn build_mask(kind: u8, side: Side, sq: usize) -> (r: BitBoard)
    requires
        sq < 64,
    ensures
        forall|t: int| 0 <= t < 64 ==> (#[trigger] bit_of(r.0, t) <==> in_mask(kind, side, sq as int, t)),
{
    let mut bb: u64 = 0;
    let mut t: usize = 0;
    proof {
        assert forall|u: int| 0 <= u < 64 implies !bit_of(bb, u) by {
            lemma_bit_zero(u);
        }
    }
    while t < 64
        invariant
            t <= 64,
            sq < 64,
            forall|u: int| 0 <= u < 64 ==> (#[trigger] bit_of(bb, u) <==> (u < t && in_mask(kind, side, sq as int, u))),
        decreases 64 - t,
    {
        if mask_has(kind, side, sq, t) {
            bb = bb | (1u64 << t as u64);
        }
        t = t + 1;
    }
    BitBoard(bb)
}

/// The squares of the files next to `file`.
pub open spec fn adjacent_file(file: int, t: int) -> bool {
    t % 8 == file - 1 || t % 8 == file + 1
}

/// The masks by side and square of one kind.
fn build_side_masks(kind: u8) -> (r: [[BitBoard; 64]; 2])
    ensures
        forall|si: int, sq: int, t: int|
            0 <= si < 2 && 0 <= sq < 64 && 0 <= t < 64 ==> (#[trigger] bit_of(r[si][sq].0, t) <==> in_mask(
                kind,
                Side::from_index(si),
                sq,
                t,
            )),
{
    let mut out = [[BitBoard(0); 64]; 2];
    let mut si: usize = 0;
    while si < 2
        invariant
            si <= 2,
            forall|s2: int, sq: int, t: int|
                0 <= s2 < si && 0 <= sq < 64 && 0 <= t < 64 ==> (#[trigger] bit_of(out[s2][sq].0, t) <==> in_mask(
                    kind,
                    Side::from_index(s2),
                    sq,
                    t,
                )),
        decreases 2 - si,
    {
        let side = if si == 0 { Side::White } else { Side::Black };
        let mut row = [BitBoard(0); 64];
        let mut sq: usize = 0;
        while sq < 64
            invariant
                sq <= 64,
                si < 2,
                side == Side::from_index(si as int),
                forall|q: int, t: int|
                    0 <= q < sq && 0 <= t < 64 ==> (#[trigger] bit_of(row[q].0, t) <==> in_mask(kind, side, q, t)),
            decreases 64 - sq,
        {
            row[sq] = build_mask(kind, side, sq);
            sq = sq + 1;
        }
        out[si] = row;
        si = si + 1;
    }
    out
}

/// The tables hold the masks they are named for.
pub open spec fn tables_ok(r: PawnTables) -> bool {
    &&& forall|f: int, t: int| 0 <= f < 8 && 0 <= t < 64 ==> (#[trigger] bit_of(r.pawn_adjacent_files_masks[f].0, t)
        <==> adjacent_file(f, t))
    &&& forall|si: int, sq: int, t: int|
        0 <= si < 2 && 0 <= sq < 64 && 0 <= t < 64 ==> (#[trigger] bit_of(r.passed_pawn_blocking_masks[si][sq].0, t)
            <==> in_mask(0, Side::from_index(si), sq, t))
    &&& forall|si: int, sq: int, t: int|
        0 <= si < 2 && 0 <= sq < 64 && 0 <= t < 64 ==> (#[trigger] bit_of(r.king_shield_zone_masks[si][sq].0, t)
            <==> in_mask(1, Side::from_index(si), sq, t))
    &&& forall|si: int, sq: int, t: int|
        0 <= si < 2 && 0 <= sq < 64 && 0 <= t < 64 ==> (#[trigger] bit_of(r.pawn_front_square_masks[si][sq].0, t)
            <==> in_mask(2, Side::from_index(si), sq, t))
    &&& forall|si: int, sq: int, t: int|
        0 <= si < 2 && 0 <= sq < 64 && 0 <= t < 64 ==> (#[trigger] bit_of(r.pawn_backward_support_masks[si][sq].0, t)
            <==> in_mask(3, Side::from_index(si), sq, t))
    &&& forall|sq: int, t: int| 0 <= sq < 64 && 0 <= t < 64 ==> (#[trigger] bit_of(r.connected_pawn_masks[sq].0, t)
        <==> in_mask(4, Side::White, sq, t))
    &&& forall|si: int, sq: int, t: int|
        0 <= si < 2 && 0 <= sq < 64 && 0 <= t < 64 ==> (#[trigger] bit_of(r.king_attack_zone_masks[si][sq].0, t)
            <==> in_mask(5, Side::from_index(si), sq, t))
}

impl PawnTables {
    /// All the masks.
    pub fn new() -> (r: Self)
        ensures
            tables_ok(r),
            forall|f: int, t: int| 0 <= f < 8 && 0 <= t < 64 ==> (#[trigger] bit_of(r.pawn_adjacent_files_masks[f].0, t)
                <==> adjacent_file(f, t)),
            forall|si: int, sq: int, t: int|
                0 <= si < 2 && 0 <= sq < 64 && 0 <= t < 64 ==> (#[trigger] bit_of(r.passed_pawn_blocking_masks[si][sq].0, t)
                    <==> in_mask(0, Side::from_index(si), sq, t)),
            forall|si: int, sq: int, t: int|
                0 <= si < 2 && 0 <= sq < 64 && 0 <= t < 64 ==> (#[trigger] bit_of(r.king_shield_zone_masks[si][sq].0, t)
                    <==> in_mask(1, Side::from_index(si), sq, t)),
            forall|si: int, sq: int, t: int|
                0 <= si < 2 && 0 <= sq < 64 && 0 <= t < 64 ==> (#[trigger] bit_of(r.pawn_front_square_masks[si][sq].0, t)
                    <==> in_mask(2, Side::from_index(si), sq, t)),
            forall|si: int, sq: int, t: int|
                0 <= si < 2 && 0 <= sq < 64 && 0 <= t < 64 ==> (#[trigger] bit_of(r.pawn_backward_support_masks[si][sq].0, t)
                    <==> in_mask(3, Side::from_index(si), sq, t)),
            forall|sq: int, t: int| 0 <= sq < 64 && 0 <= t < 64 ==> (#[trigger] bit_of(r.connected_pawn_masks[sq].0, t)
                <==> in_mask(4, Side::White, sq, t)),
            forall|si: int, sq: int, t: int|
                0 <= si < 2 && 0 <= sq < 64 && 0 <= t < 64 ==> (#[trigger] bit_of(r.king_attack_zone_masks[si][sq].0, t)
                    <==> in_mask(5, Side::from_index(si), sq, t)),
    {
        let mut tables = Self {
            pawn_adjacent_files_masks: [BitBoard(0); 8],
            passed_pawn_blocking_masks: [[BitBoard(0); 64]; 2],
            king_shield_zone_masks: [[BitBoard(0); 64]; 2],
            pawn_front_square_masks: [[BitBoard(0); 64]; 2],
            pawn_backward_support_masks: [[BitBoard(0); 64]; 2],
            connected_pawn_masks: [BitBoard(0); 64],
            king_attack_zone_masks: [[BitBoard(0); 64]; 2],
        };
        tables.init_adjacent_file_masks();
        tables.init_per_sq_masks();
        tables.init_king_attack_zones();
        tables
    }

    /// The masks of the files next to each file.
    pub fn init_adjacent_file_masks(&mut self)
        ensures
            forall|f: int, t: int| 0 <= f < 8 && 0 <= t < 64 ==> (#[trigger] bit_of(final(self).pawn_adjacent_files_masks[f].0, t)
                <==> adjacent_file(f, t)),
            final(self).passed_pawn_blocking_masks == old(self).passed_pawn_blocking_masks,
            final(self).king_shield_zone_masks == old(self).king_shield_zone_masks,
            final(self).pawn_front_square_masks == old(self).pawn_front_square_masks,
            final(self).pawn_backward_support_masks == old(self).pawn_backward_support_masks,
            final(self).connected_pawn_masks == old(self).connected_pawn_masks,
            final(self).king_attack_zone_masks == old(self).king_attack_zone_masks,
    {
        let mut file: usize = 0;
        while file < 8
            invariant
                file <= 8,
                forall|f: int, t: int| 0 <= f < file && 0 <= t < 64 ==> (#[trigger] bit_of(self.pawn_adjacent_files_masks[f].0, t)
                    <==> adjacent_file(f, t)),
                self.passed_pawn_blocking_masks == old(self).passed_pawn_blocking_masks,
                self.king_shield_zone_masks == old(self).king_shield_zone_masks,
                self.pawn_front_square_masks == old(self).pawn_front_square_masks,
                self.pawn_backward_support_masks == old(self).pawn_backward_support_masks,
                self.connected_pawn_masks == old(self).connected_pawn_masks,
                self.king_attack_zone_masks == old(self).king_attack_zone_masks,
            decreases 8 - file,
        {
            let mut bb: u64 = 0;
            let mut t: usize = 0;
            proof {
                assert forall|u: int| 0 <= u < 64 implies !bit_of(bb, u) by {
                    lemma_bit_zero(u);
                }
            }
            while t < 64
                invariant
                    t <= 64,
                    file < 8,
                    forall|u: int| 0 <= u < 64 ==> (#[trigger] bit_of(bb, u) <==> (u < t && adjacent_file(file as int, u))),
                decreases 64 - t,
            {
                if t % 8 + 1 == file || t % 8 == file + 1 {
                    bb = bb | (1u64 << t as u64);
                }
                t = t + 1;
            }
            self.pawn_adjacent_files_masks[file] = BitBoard(bb);
            file = file + 1;
        }
    }

    /// The per-square masks: passed-pawn blocking, king shield, front square, backward
    /// support and connected neighbours.
    pub fn init_per_sq_masks(&mut self)
        ensures
            final(self).pawn_adjacent_files_masks == old(self).pawn_adjacent_files_masks,
            final(self).king_attack_zone_masks == old(self).king_attack_zone_masks,
            forall|si: int, sq: int, t: int|
                0 <= si < 2 && 0 <= sq < 64 && 0 <= t < 64 ==> (#[trigger] bit_of(final(self).passed_pawn_blocking_masks[si][sq].0, t)
                    <==> in_mask(0, Side::from_index(si), sq, t)),
            forall|si: int, sq: int, t: int|
                0 <= si < 2 && 0 <= sq < 64 && 0 <= t < 64 ==> (#[trigger] bit_of(final(self).king_shield_zone_masks[si][sq].0, t)
                    <==> in_mask(1, Side::from_index(si), sq, t)),
            forall|si: int, sq: int, t: int|
                0 <= si < 2 && 0 <= sq < 64 && 0 <= t < 64 ==> (#[trigger] bit_of(final(self).pawn_front_square_masks[si][sq].0, t)
                    <==> in_mask(2, Side::from_index(si), sq, t)),
            forall|si: int, sq: int, t: int|
                0 <= si < 2 && 0 <= sq < 64 && 0 <= t < 64 ==> (#[trigger] bit_of(final(self).pawn_backward_support_masks[si][sq].0, t)
                    <==> in_mask(3, Side::from_index(si), sq, t)),
            forall|sq: int, t: int| 0 <= sq < 64 && 0 <= t < 64 ==> (#[trigger] bit_of(final(self).connected_pawn_masks[sq].0, t)
                <==> in_mask(4, Side::White, sq, t)),
    {
        self.passed_pawn_blocking_masks = build_side_masks(0);
        self.king_shield_zone_masks = build_side_masks(1);
        self.pawn_front_square_masks = build_side_masks(2);
        self.pawn_backward_support_masks = build_side_masks(3);
        let mut row = [BitBoard(0); 64];
        let mut sq: usize = 0;
        while sq < 64
            invariant
                sq <= 64,
                forall|q: int, t: int| 0 <= q < sq && 0 <= t < 64 ==> (#[trigger] bit_of(row[q].0, t) <==> in_mask(4, Side::White, q, t)),
            decreases 64 - sq,
        {
            row[sq] = build_mask(4, Side::White, sq);
            sq = sq + 1;
        }
        self.connected_pawn_masks = row;
    }

    /// The king attack zones of both sides.
    pub fn init_king_attack_zones(&mut self)
        ensures
            final(self).pawn_adjacent_files_masks == old(self).pawn_adjacent_files_masks,
            final(self).passed_pawn_blocking_masks == old(self).passed_pawn_blocking_masks,
            final(self).king_shield_zone_masks == old(self).king_shield_zone_masks,
            final(self).pawn_front_square_masks == old(self).pawn_front_square_masks,
            final(self).pawn_backward_support_masks == old(self).pawn_backward_support_masks,
            final(self).connected_pawn_masks == old(self).connected_pawn_masks,
            forall|si: int, sq: int, t: int|
                0 <= si < 2 && 0 <= sq < 64 && 0 <= t < 64 ==> (#[trigger] bit_of(final(self).king_attack_zone_masks[si][sq].0, t)
                    <==> in_mask(5, Side::from_index(si), sq, t)),
    {
        self.king_attack_zone_masks = build_side_masks(5);
    }
}

impl Default for PawnTables {
    /// Every mask empty.
    fn default() -> (r: Self)
        ensures
            forall|f: int| 0 <= f < 8 ==> #[trigger] r.pawn_adjacent_files_masks[f].0 == 0,
            forall|si: int, sq: int| 0 <= si < 2 && 0 <= sq < 64 ==> {
                &&& #[trigger] r.passed_pawn_blocking_masks[si][sq].0 == 0
                &&& r.king_shield_zone_masks[si][sq].0 == 0
                &&& r.pawn_front_square_masks[si][sq].0 == 0
                &&& r.pawn_backward_support_masks[si][sq].0 == 0
                &&& r.king_attack_zone_masks[si][sq].0 == 0
            },
            forall|sq: int| 0 <= sq < 64 ==> #[trigger] r.connected_pawn_masks[sq].0 == 0,
    {
        PawnTables {
            pawn_adjacent_files_masks: [BitBoard(0); 8],
            passed_pawn_blocking_masks: [[BitBoard(0); 64]; 2],
            king_shield_zone_masks: [[BitBoard(0); 64]; 2],
            pawn_front_square_masks: [[BitBoard(0); 64]; 2],
            pawn_backward_support_masks: [[BitBoard(0); 64]; 2],
            connected_pawn_masks: [BitBoard(0); 64],
            king_attack_zone_masks: [[BitBoard(0); 64]; 2],
        }
    }
}

} // verus!
