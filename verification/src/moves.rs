use vstd::prelude::*;
use crate::bitboard::{BitBoard, bit_of, lemma_bit_zero, group_bits};
use crate::board_state::BoardState;
use crate::components::{Piece, Side};
use crate::move_tables::{iabs, king_target, king_attacks};

verus! {

broadcast use group_bits;

/// Per-square move boards of one piece kind for one side, built from a placement: for each
/// square, where a piece of that kind standing there could move.
#[derive(Debug, Clone)]
pub struct Moves {
    /// The piece kind.
    pub piece: Piece,
    /// One board per square.
    pub attack_bb: Vec<BitBoard>,
    state: BoardState,
}

/// A white pawn on `i` reaches `t`: one step up onto an empty square, two from the second
/// rank when both are empty, or diagonally up onto an enemy piece; nothing from the last rank.
pub open spec fn white_pawn_target(i: int, t: int, all: u64, enemy: u64) -> bool {
    let r = i / 8;
    let f = i % 8;
    r != 7 && ((t == i + 8 && !bit_of(all, i + 8)) || (t == i + 16 && r == 1 && !bit_of(all, i + 8) && !bit_of(
        all,
        i + 16,
    )) || (t == i + 7 && f > 0 && bit_of(enemy, i + 7)) || (t == i + 9 && f < 7 && bit_of(enemy, i + 9)))
}

/// A black pawn on `i` reaches `t`: one step down onto an empty square, two from the seventh
/// rank when both are empty, or diagonally down onto an enemy piece; nothing from the first
/// rank.
pub open spec fn black_pawn_target(i: int, t: int, all: u64, enemy: u64) -> bool {
    let r = i / 8;
    let f = i % 8;
    r != 0 && ((t == i - 8 && !bit_of(all, i - 8)) || (t == i - 16 && r == 6 && !bit_of(
        all,
        i - 8,
    ) && !bit_of(all, i - 16)) || (t == i - 9 && f > 0 && bit_of(enemy, i - 9)) || (t == i - 7 && f < 7 && bit_of(
        enemy,
        i - 7,
    )))
}

/// How far a walk from `t` in steps of `d` can still go.
pub open spec fn walk_room(d: int, t: int) -> int {
    if d > 0 {
        if t < 64 { 64 - t } else { 0 }
    } else {
        if t >= 0 { t + 1 } else { 0 }
    }
}

/// The squares a bishop on `i` adds walking from `t` in steps of `d`: a square is added
/// when it is not the mover's and lies on a diagonal through `i`; the walk stops off the
/// board, at a piece of the mover's, after an enemy piece, or once off the diagonal.
pub open spec fn bishop_walk(i: int, d: int, t: int, ally: u64, enemy: u64) -> Set<int>
    decreases walk_room(d, t),
{
    if d == 0 || !(0 <= t < 64) || bit_of(ally, t) {
        Set::empty()
    } else {
        let aligned = iabs(i / 8 - t / 8) == iabs(i % 8 - t % 8);
        let here = if aligned { set![t] } else { Set::empty() };
        if bit_of(enemy, t) || !aligned || i / 8 - t / 8 == 0 {
            here
        } else {
            here.union(bishop_walk(i, d, t + d, ally, enemy))
        }
    }
}

/// The squares a rook on `i` adds walking from `t` in steps of `d`: each square on `i`'s
/// rank (for sideways steps) or file (for vertical ones) up to a piece, an enemy piece
/// included, the mover's excluded.
pub open spec fn rook_walk(i: int, d: int, t: int, ally: u64, enemy: u64) -> Set<int>
    decreases walk_room(d, t),
{
    if d == 0 || !(0 <= t < 64) || ((d == 1 || d == -1) && t / 8 != i / 8) || ((d == 8 || d == -8) && t % 8 != i % 8)
        || bit_of(ally, t) {
        Set::empty()
    } else if bit_of(enemy, t) {
        set![t]
    } else {
        set![t].union(rook_walk(i, d, t + d, ally, enemy))
    }
}

/// A bishop on `i` reaches `t`, walking the four diagonal directions.
pub open spec fn bishop_target(i: int, t: int, ally: u64, enemy: u64) -> bool {
    bishop_walk(i, 9, i + 9, ally, enemy).contains(t) || bishop_walk(i, 7, i + 7, ally, enemy).contains(t)
        || bishop_walk(i, -9, i - 9, ally, enemy).contains(t) || bishop_walk(i, -7, i - 7, ally, enemy).contains(t)
}

/// A rook on `i` reaches `t`, walking up, down, left and right.
pub open spec fn rook_target(i: int, t: int, ally: u64, enemy: u64) -> bool {
    rook_walk(i, 8, i + 8, ally, enemy).contains(t) || rook_walk(i, -8, i - 8, ally, enemy).contains(t)
        || rook_walk(i, -1, i - 1, ally, enemy).contains(t) || rook_walk(i, 1, i + 1, ally, enemy).contains(t)
}

/// A king on `i` reaches `t`: any square of the board one step away, along a rank, a file
/// or a diagonal.
pub open spec fn king_table_target(i: int, t: int) -> bool {
    0 <= t < 64 && king_target(i, t)
}

/// A knight on `i` reaches `t`: `i` plus one of the eight knight offsets, on the board, with
/// the larger of the file and rank distances 2.
pub open spec fn knight_table_target(i: int, t: int) -> bool {
    let dist = if iabs(i % 8 - t % 8) >= iabs(i / 8 - t / 8) { iabs(i % 8 - t % 8) } else { iabs(i / 8 - t / 8) };
    0 <= t < 64 && (t - i == -17 || t - i == -15 || t - i == -10 || t - i == -6 || t - i == 6 || t - i == 10 || t - i
        == 15 || t - i == 17) && dist == 2
}

/// The 64 boards hold, square by square, exactly the targets `pred` names.
pub open spec fn boards_are(v: Seq<BitBoard>, pred: spec_fn(int, int) -> bool) -> bool {
    &&& v.len() == 64
    &&& forall|i: int, t: int| 0 <= i < 64 && 0 <= t < 64 ==> (#[trigger] bit_of(v[i].0, t) <==> pred(i, t))
}

/// Where a piece of kind `piece` and side `stm` on `i` moves to, given the placement `state`.
pub open spec fn piece_target(piece: Piece, stm: Side, state: BoardState, i: int, t: int) -> bool {
    let ally = state.side_bb(stm);
    let enemy = state.side_bb(stm.spec_flip());
    match piece {
        Piece::Pawn => if stm == Side::White {
            white_pawn_target(i, t, state.side_bb(Side::White) | state.side_bb(Side::Black), state.side_bb(Side::Black))
        } else {
            black_pawn_target(i, t, state.side_bb(Side::White) | state.side_bb(Side::Black), state.side_bb(Side::White))
        },
        Piece::Knight => knight_table_target(i, t),
        Piece::Bishop => bishop_target(i, t, ally, enemy),
        Piece::Rook => rook_target(i, t, ally, enemy),
        Piece::Queen => bishop_target(i, t, ally, enemy) || rook_target(i, t, ally, enemy),
        Piece::King => king_table_target(i, t),
    }
}

/// The board of the single square `t`.
fn square_bit(t: usize) -> (r: u64)
    requires
        t < 64,
    ensures
        forall|u: int| 0 <= u < 64 ==> (#[trigger] bit_of(r, u) <==> u == t),
{
    1u64 << t as u64
}

/// The squares a bishop on `i` adds walking from `t` in steps of `d`.
fn bishop_dir(i: usize, d: i64, t: i64, ally: u64, enemy: u64) -> (r: u64)
    requires
        i < 64,
        d == 9 || d == 7 || d == -9 || d == -7,
        -64 <= t <= 128,
    ensures
        forall|u: int| 0 <= u < 64 ==> (#[trigger] bit_of(r, u) <==> bishop_walk(i as int, d as int, t as int, ally, enemy).contains(u)),
    decreases walk_room(d as int, t as int),
{
    if !(0 <= t && t < 64) || BitBoard(ally).contains_square(t as usize) {
        proof {
            assert forall|u: int| 0 <= u < 64 implies !bit_of(0u64, u) by {
                lemma_bit_zero(u);
            }
        }
        return 0;
    }
    let rank = (i / 8) as i64;
    let file = (i % 8) as i64;
    let fd = rank - t / 8;
    let rd = file - t % 8;
    let afd = if fd >= 0 { fd } else { -fd };
    let ard = if rd >= 0 { rd } else { -rd };
    let here: u64 = if afd == ard { square_bit(t as usize) } else { 0 };
    proof {
        assert forall|u: int| 0 <= u < 64 implies !bit_of(0u64, u) by {
            lemma_bit_zero(u);
        }
        assert(afd == iabs(i / 8 - t / 8));
        assert(ard == iabs(i % 8 - t % 8));
    }
    if BitBoard(enemy).contains_square(t as usize) || afd != ard || fd == 0 {
        return here;
    }
    let rest = bishop_dir(i, d, t + d, ally, enemy);
    here | rest
}

/// The squares a rook on `i` adds walking from `t` in steps of `d`.
fn rook_dir(i: usize, d: i64, t: i64, ally: u64, enemy: u64) -> (r: u64)
    requires
        i < 64,
        d == 8 || d == -8 || d == -1 || d == 1,
        -64 <= t <= 128,
    ensures
        forall|u: int| 0 <= u < 64 ==> (#[trigger] bit_of(r, u) <==> rook_walk(i as int, d as int, t as int, ally, enemy).contains(u)),
    decreases walk_room(d as int, t as int),
{
    proof {
        assert forall|u: int| 0 <= u < 64 implies !bit_of(0u64, u) by {
            lemma_bit_zero(u);
        }
    }
    if !(0 <= t && t < 64) {
        return 0;
    }
    let rank = (i / 8) as i64;
    let file = (i % 8) as i64;
    if ((d == 1 || d == -1) && t / 8 != rank) || ((d == 8 || d == -8) && t % 8 != file) || BitBoard(ally).contains_square(
        t as usize,
    ) {
        return 0;
    }
    let here = square_bit(t as usize);
    if BitBoard(enemy).contains_square(t as usize) {
        return here;
    }
    let rest = rook_dir(i, d, t + d, ally, enemy);
    here | rest
}

impl Moves {
    /// The placement the boards were built from.
    pub closed spec fn state_of(&self) -> BoardState {
        self.state
    }

    /// The piece kind the boards are for.
    pub closed spec fn kind(&self) -> Piece {
        self.piece
    }

    /// The boards, square by square.
    pub closed spec fn boards(&self) -> Seq<BitBoard> {
        self.attack_bb@
    }

    /// The boards of `piece` for side `stm` on the placement `state`.
    pub fn new(piece: Piece, stm: Side, state: BoardState) -> (r: Self)
        ensures
            r.kind() == piece,
            r.state_of() == state,
            boards_are(r.boards(), |i: int, t: int| piece_target(piece, stm, state, i, t)),
    {
        let mut m = Moves { piece, attack_bb: Vec::new(), state };
        let boards = match piece {
            Piece::Knight => m.gen_knight_moves(stm),
            Piece::Rook => m.gen_rook_moves(stm),
            Piece::Bishop => m.gen_bishop_moves(stm),
            Piece::Queen => m.gen_queen_moves(stm),
            Piece::Pawn => m.gen_pawn_moves(stm),
            Piece::King => m.gen_king_moves(stm),
        };
        m.attack_bb = boards;
        m
    }

    /// The boards of every piece kind for both sides: white's six kinds in index order, then
    /// black's. Pieces of the mover's own side are not taken out of the boards here.
    pub fn all_possible_moves(state: BoardState) -> (r: Vec<Self>)
        ensures
            r@.len() == 12,
            forall|k: int| #![trigger r@[k]] 0 <= k < 12 ==> {
                &&& r@[k].kind() == Piece::from_index(k % 6)
                &&& r@[k].state_of() == state
                &&& boards_are(
                    r@[k].boards(),
                    |i: int, t: int| piece_target(Piece::from_index(k % 6), Side::from_index(k / 6), state, i, t),
                )
            },
    {
        let kinds = Piece::all();
        let mut out: Vec<Moves> = Vec::new();
        let mut k: usize = 0;
        while k < kinds.len()
            invariant
                kinds@.len() == 12,
                forall|j: int| 0 <= j < 12 ==> #[trigger] kinds@[j] == (Piece::from_index(j % 6), Side::from_index(j / 6)),
                k <= 12,
                out@.len() == k,
                forall|j: int| #![trigger out@[j]] 0 <= j < k ==> {
                    &&& out@[j].kind() == Piece::from_index(j % 6)
                    &&& out@[j].state_of() == state
                    &&& boards_are(
                        out@[j].boards(),
                        |i: int, t: int| piece_target(Piece::from_index(j % 6), Side::from_index(j / 6), state, i, t),
                    )
                },
            decreases 12 - k,
        {
            let (piece, stm) = kinds[k];
            let m = Moves::new(piece, stm, state);
            out.push(m);
            k = k + 1;
        }
        out
    }

    /// Takes the squares of `stm`'s own pieces on `board` out of every board.
    pub fn make_legal(&mut self, stm: &Side, board: &BoardState)
        ensures
            final(self).kind() == old(self).kind(),
            final(self).state_of() == old(self).state_of(),
            final(self).boards().len() == old(self).boards().len(),
            forall|i: int| 0 <= i < old(self).boards().len() ==> (#[trigger] final(self).boards()[i]).0
                == old(self).boards()[i].0 & !board.side_bb(*stm),
    {
        let own = board.get_side_bb(*stm).0;
        let mut i: usize = 0;
        while i < self.attack_bb.len()
            invariant
                own == board.side_bb(*stm),
                i <= self.attack_bb@.len(),
                self.piece == old(self).piece,
                self.state == old(self).state,
                self.attack_bb@.len() == old(self).boards().len(),
                forall|j: int| 0 <= j < i ==> (#[trigger] self.attack_bb@[j]).0 == old(self).boards()[j].0 & !own,
                forall|j: int| i <= j < self.attack_bb@.len() ==> #[trigger] self.attack_bb@[j] == old(self).boards()[j],
            decreases self.attack_bb@.len() - i,
        {
            let b = self.attack_bb[i].0 & !own;
            self.attack_bb.set(i, BitBoard(b));
            i = i + 1;
        }
    }

    /// Boards for a white pawn on each square.
    pub fn gen_white_pawn_moves(&self) -> (r: Vec<BitBoard>)
        ensures
            boards_are(
                r@,
                |i: int, t: int|
                    white_pawn_target(
                        i,
                        t,
                        self.state_of().side_bb(Side::White) | self.state_of().side_bb(Side::Black),
                        self.state_of().side_bb(Side::Black),
                    ),
            ),
    {
        let enemy = self.state.get_side_bb(Side::Black).0;
        let ally = self.state.get_side_bb(Side::White).0;
        let all = ally | enemy;
        let mut out: Vec<BitBoard> = Vec::new();
        let mut index: usize = 0;
        while index < 64
            invariant
                index <= 64,
                out@.len() == index,
                enemy == self.state.side_bb(Side::Black),
                all == self.state.side_bb(Side::White) | self.state.side_bb(Side::Black),
                forall|i: int, t: int|
                    0 <= i < index && 0 <= t < 64 ==> (#[trigger] bit_of(out@[i].0, t) <==> white_pawn_target(i, t, all, enemy)),
            decreases 64 - index,
        {
            let rank = index / 8;
            let file = index % 8;
            let mut bb: u64 = 0;
            proof {
                assert forall|u: int| 0 <= u < 64 implies !bit_of(bb, u) by {
                    lemma_bit_zero(u);
                }
            }
            if rank != 7 {
                let fwd = index + 8;
                if !BitBoard(all).contains_square(fwd) {
                    bb = bb | square_bit(fwd);
                    if rank == 1 && !BitBoard(all).contains_square(fwd + 8) {
                        bb = bb | square_bit(fwd + 8);
                    }
                }
                if file > 0 {
                    let cap_left = index + 7;
                    if BitBoard(enemy).contains_square(cap_left) {
                        bb = bb | square_bit(cap_left);
                    }
                }
                if file < 7 {
                    let cap_right = index + 9;
                    if BitBoard(enemy).contains_square(cap_right) {
                        bb = bb | square_bit(cap_right);
                    }
                }
            }
            proof {
                assert forall|t: int| 0 <= t < 64 implies (#[trigger] bit_of(bb, t) <==> white_pawn_target(
                    index as int,
                    t,
                    all,
                    enemy,
                )) by {}
            }
            out.push(BitBoard(bb));
            index = index + 1;
        }
        out
    }

    /// Boards for a black pawn on each square.
    pub fn gen_black_pawn_moves(&self) -> (r: Vec<BitBoard>)
        ensures
            boards_are(
                r@,
                |i: int, t: int|
                    black_pawn_target(
                        i,
                        t,
                        self.state_of().side_bb(Side::White) | self.state_of().side_bb(Side::Black),
                        self.state_of().side_bb(Side::White),
                    ),
            ),
    {
        let enemy = self.state.get_side_bb(Side::White).0;
        let ally = self.state.get_side_bb(Side::Black).0;
        let all = enemy | ally;
        let mut out: Vec<BitBoard> = Vec::new();
        let mut index: usize = 0;
        while index < 64
            invariant
                index <= 64,
                out@.len() == index,
                enemy == self.state.side_bb(Side::White),
                all == self.state.side_bb(Side::White) | self.state.side_bb(Side::Black),
                forall|i: int, t: int|
                    0 <= i < index && 0 <= t < 64 ==> (#[trigger] bit_of(out@[i].0, t) <==> black_pawn_target(i, t, all, enemy)),
            decreases 64 - index,
        {
            let rank = index / 8;
            let file = index % 8;
            let mut bb: u64 = 0;
            proof {
                assert forall|u: int| 0 <= u < 64 implies !bit_of(bb, u) by {
                    lemma_bit_zero(u);
                }
            }
            if rank != 0 {
                let fwd = index - 8;
                if !BitBoard(all).contains_square(fwd) {
                    bb = bb | square_bit(fwd);
                    if rank == 6 && !BitBoard(all).contains_square(fwd - 8) {
                        bb = bb | square_bit(fwd - 8);
                    }
                }
                if file > 0 {
                    let cap_left = index - 9;
                    if BitBoard(enemy).contains_square(cap_left) {
                        bb = bb | square_bit(cap_left);
                    }
                }
                if file < 7 {
                    let cap_right = index - 7;
                    if BitBoard(enemy).contains_square(cap_right) {
                        bb = bb | square_bit(cap_right);
                    }
                }
            }
            proof {
                assert forall|t: int| 0 <= t < 64 implies (#[trigger] bit_of(bb, t) <==> black_pawn_target(
                    index as int,
                    t,
                    all,
                    enemy,
                )) by {}
            }
            out.push(BitBoard(bb));
            index = index + 1;
        }
        out
    }

    /// Boards for a pawn of `stm` on each square.
    pub fn gen_pawn_moves(&self, stm: Side) -> (r: Vec<BitBoard>)
        ensures
            stm == Side::White ==> boards_are(
                r@,
                |i: int, t: int|
                    white_pawn_target(
                        i,
                        t,
                        self.state_of().side_bb(Side::White) | self.state_of().side_bb(Side::Black),
                        self.state_of().side_bb(Side::Black),
                    ),
            ),
            stm == Side::Black ==> boards_are(
                r@,
                |i: int, t: int|
                    black_pawn_target(
                        i,
                        t,
                        self.state_of().side_bb(Side::White) | self.state_of().side_bb(Side::Black),
                        self.state_of().side_bb(Side::White),
                    ),
            ),
    {
        match stm {
            Side::White => self.gen_white_pawn_moves(),
            Side::Black => self.gen_black_pawn_moves(),
        }
    }

    /// Boards for a knight on each square; the side plays no part.
    pub fn gen_knight_moves(&self, stm: Side) -> (r: Vec<BitBoard>)
        ensures
            boards_are(r@, |i: int, t: int| knight_table_target(i, t)),
    {
        let offsets: [i8; 8] = [-17, -15, -10, -6, 6, 10, 15, 17];
        let mut out: Vec<BitBoard> = Vec::new();
        let mut index: usize = 0;
        while index < 64
            invariant
                index <= 64,
                out@.len() == index,
                offsets@ == seq![-17i8, -15i8, -10i8, -6i8, 6i8, 10i8, 15i8, 17i8],
                forall|i: int, t: int|
                    0 <= i < index && 0 <= t < 64 ==> (#[trigger] bit_of(out@[i].0, t) <==> knight_table_target(i, t)),
            decreases 64 - index,
        {
            let rank = (index / 8) as i64;
            let file = (index % 8) as i64;
            let mut bb: u64 = 0;
            proof {
                assert forall|u: int| 0 <= u < 64 implies !bit_of(bb, u) by {
                    lemma_bit_zero(u);
                }
            }
            let mut k: usize = 0;
            while k < 8
                invariant
                    k <= 8,
                    index < 64,
                    rank == index / 8,
                    file == index % 8,
                    offsets@ == seq![-17i8, -15i8, -10i8, -6i8, 6i8, 10i8, 15i8, 17i8],
                    forall|t: int| 0 <= t < 64 ==> (#[trigger] bit_of(bb, t) <==> (knight_table_target(index as int, t) && exists|j: int| 0 <= j < k && t - index == offsets@[j])),
                decreases 8 - k,
            {
                let target = index as i64 + offsets[k] as i64;
                if 0 <= target && target < 64 {
                    let ty = target / 8;
                    let tx = target % 8;
                    let dx = if file >= tx { file - tx } else { tx - file };
                    let dy = if rank >= ty { rank - ty } else { ty - rank };
                    let m = if dx >= dy { dx } else { dy };
                    if m == 2 {
                        let old = bb;
                        bb = bb | square_bit(target as usize);
                        proof {
                            assert forall|t: int| 0 <= t < 64 implies (#[trigger] bit_of(bb, t) <==> (knight_table_target(index as int, t) && exists|j: int| 0 <= j < k + 1 && t - index == offsets@[j])) by {
                                if t == target {
                                    assert(t - index == offsets@[k as int]);
                                }
                                if exists|j: int| 0 <= j < k + 1 && t - index == offsets@[j] {
                                    let j = choose|j: int| 0 <= j < k + 1 && t - index == offsets@[j];
                                    if j < k {
                                        assert(exists|j2: int| 0 <= j2 < k && t - index == offsets@[j2]);
                                    }
                                }
                            }
                        }
                    } else {
                        proof {
                            assert forall|t: int| 0 <= t < 64 implies (#[trigger] bit_of(bb, t) <==> (knight_table_target(index as int, t) && exists|j: int| 0 <= j < k + 1 && t - index == offsets@[j])) by {
                                if exists|j: int| 0 <= j < k + 1 && t - index == offsets@[j] {
                                    let j = choose|j: int| 0 <= j < k + 1 && t - index == offsets@[j];
                                    if j < k {
                                        assert(exists|j2: int| 0 <= j2 < k && t - index == offsets@[j2]);
                                    }
                                }
                            }
                        }
                    }
                } else {
                    proof {
                        assert forall|t: int| 0 <= t < 64 implies (#[trigger] bit_of(bb, t) <==> (knight_table_target(index as int, t) && exists|j: int| 0 <= j < k + 1 && t - index == offsets@[j])) by {
                            if exists|j: int| 0 <= j < k + 1 && t - index == offsets@[j] {
                                let j = choose|j: int| 0 <= j < k + 1 && t - index == offsets@[j];
                                if j < k {
                                    assert(exists|j2: int| 0 <= j2 < k && t - index == offsets@[j2]);
                                }
                            }
                        }
                    }
                }
                k = k + 1;
            }
            proof {
                assert forall|t: int| 0 <= t < 64 implies (#[trigger] bit_of(bb, t) <==> knight_table_target(index as int, t)) by {
                    if knight_table_target(index as int, t) {
                        let d = t - index;
                        if d == -17 { assert(d == offsets@[0]); }
                        else if d == -15 { assert(d == offsets@[1]); }
                        else if d == -10 { assert(d == offsets@[2]); }
                        else if d == -6 { assert(d == offsets@[3]); }
                        else if d == 6 { assert(d == offsets@[4]); }
                        else if d == 10 { assert(d == offsets@[5]); }
                        else if d == 15 { assert(d == offsets@[6]); }
                        else { assert(d == offsets@[7]); }
                    }
                }
            }
            out.push(BitBoard(bb));
            index = index + 1;
        }
        out
    }

    /// Boards for a bishop of `stm` on each square.
    pub fn gen_bishop_moves(&self, stm: Side) -> (r: Vec<BitBoard>)
        ensures
            boards_are(
                r@,
                |i: int, t: int| bishop_target(i, t, self.state_of().side_bb(stm), self.state_of().side_bb(stm.spec_flip())),
            ),
    {
        let ally = self.state.get_side_bb(stm).0;
        let enemy = self.state.get_side_bb(stm.flip()).0;
        let mut out: Vec<BitBoard> = Vec::new();
        let mut index: usize = 0;
        while index < 64
            invariant
                index <= 64,
                out@.len() == index,
                ally == self.state.side_bb(stm),
                enemy == self.state.side_bb(stm.spec_flip()),
                forall|i: int, t: int|
                    0 <= i < index && 0 <= t < 64 ==> (#[trigger] bit_of(out@[i].0, t) <==> bishop_target(i, t, ally, enemy)),
            decreases 64 - index,
        {
            let x = index as i64;
            let a = bishop_dir(index, 9, x + 9, ally, enemy);
            let b = bishop_dir(index, 7, x + 7, ally, enemy);
            let c = bishop_dir(index, -9, x - 9, ally, enemy);
            let d = bishop_dir(index, -7, x - 7, ally, enemy);
            out.push(BitBoard(a | b | c | d));
            index = index + 1;
        }
        out
    }

    /// Boards for a rook of `stm` on each square.
    pub fn gen_rook_moves(&self, stm: Side) -> (r: Vec<BitBoard>)
        ensures
            boards_are(
                r@,
                |i: int, t: int| rook_target(i, t, self.state_of().side_bb(stm), self.state_of().side_bb(stm.spec_flip())),
            ),
    {
        let ally = self.state.get_side_bb(stm).0;
        let enemy = self.state.get_side_bb(stm.flip()).0;
        let mut out: Vec<BitBoard> = Vec::new();
        let mut index: usize = 0;
        while index < 64
            invariant
                index <= 64,
                out@.len() == index,
                ally == self.state.side_bb(stm),
                enemy == self.state.side_bb(stm.spec_flip()),
                forall|i: int, t: int|
                    0 <= i < index && 0 <= t < 64 ==> (#[trigger] bit_of(out@[i].0, t) <==> rook_target(i, t, ally, enemy)),
            decreases 64 - index,
        {
            let x = index as i64;
            let a = rook_dir(index, 8, x + 8, ally, enemy);
            let b = rook_dir(index, -8, x - 8, ally, enemy);
            let c = rook_dir(index, -1, x - 1, ally, enemy);
            let d = rook_dir(index, 1, x + 1, ally, enemy);
            out.push(BitBoard(a | b | c | d));
            index = index + 1;
        }
        out
    }

    /// Boards for a queen of `stm` on each square: the bishop's and the rook's together.
    pub fn gen_queen_moves(&self, stm: Side) -> (r: Vec<BitBoard>)
        ensures
            boards_are(
                r@,
                |i: int, t: int|
                    bishop_target(i, t, self.state_of().side_bb(stm), self.state_of().side_bb(stm.spec_flip()))
                        || rook_target(i, t, self.state_of().side_bb(stm), self.state_of().side_bb(stm.spec_flip())),
            ),
    {
        let bishop_moves = self.gen_bishop_moves(stm);
        let rook_moves = self.gen_rook_moves(stm);
        let ghost ally = self.state.side_bb(stm);
        let ghost enemy = self.state.side_bb(stm.spec_flip());
        let mut out: Vec<BitBoard> = Vec::new();
        let mut index: usize = 0;
        while index < 64
            invariant
                index <= 64,
                out@.len() == index,
                ally == self.state.side_bb(stm),
                enemy == self.state.side_bb(stm.spec_flip()),
                boards_are(bishop_moves@, |i: int, t: int| bishop_target(i, t, ally, enemy)),
                boards_are(rook_moves@, |i: int, t: int| rook_target(i, t, ally, enemy)),
                forall|i: int, t: int|
                    0 <= i < index && 0 <= t < 64 ==> (#[trigger] bit_of(out@[i].0, t) <==> (bishop_target(i, t, ally, enemy)
                        || rook_target(i, t, ally, enemy))),
            decreases 64 - index,
        {
            let q = bishop_moves[index].0 | rook_moves[index].0;
            proof {
                assert forall|t: int| 0 <= t < 64 implies (#[trigger] bit_of(q, t) <==> (bishop_target(index as int, t, ally, enemy)
                    || rook_target(index as int, t, ally, enemy))) by {
                    assert(bit_of(bishop_moves@[index as int].0, t) <==> bishop_target(index as int, t, ally, enemy));
                    assert(bit_of(rook_moves@[index as int].0, t) <==> rook_target(index as int, t, ally, enemy));
                }
            }
            out.push(BitBoard(q));
            index = index + 1;
        }
        out
    }

    /// Boards for a king on each square; the side plays no part.
    pub fn gen_king_moves(&self, stm: Side) -> (r: Vec<BitBoard>)
        ensures
            boards_are(r@, |i: int, t: int| king_table_target(i, t)),
    {
        let mut out: Vec<BitBoard> = Vec::new();
        let mut index: usize = 0;
        while index < 64
            invariant
                index <= 64,
                out@.len() == index,
                forall|i: int, t: int| 0 <= i < index && 0 <= t < 64 ==> (#[trigger] bit_of(out@[i].0, t) <==> king_table_target(i, t)),
            decreases 64 - index,
        {
            let b = king_attacks(index);
            proof {
                assert forall|t: int| 0 <= t < 64 implies (#[trigger] bit_of(b.0, t) <==> king_table_target(index as int, t)) by {
                    assert(b.has(t) <==> king_target(index as int, t));
                }
            }
            out.push(b);
            index = index + 1;
        }
        out
    }
}

impl Default for Moves {
    /// Pawn boards not yet built, on an empty placement.
    fn default() -> (r: Self)
        ensures
            r.kind() == Piece::Pawn,
            r.boards().len() == 0,
            r.state_of().wf(),
            forall|i: int| 0 <= i < 64 ==> #[trigger] r.state_of().mb()[i] is None,
    {
        Moves { piece: Piece::Pawn, attack_bb: Vec::new(), state: BoardState::new() }
    }
}

} // verus!
