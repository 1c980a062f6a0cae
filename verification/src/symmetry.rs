use vstd::prelude::*;
use crate::attack_data::occupied;
use crate::bitboard::{bit_of, count_in};
use crate::board_state::BoardState;
use crate::components::{Piece, Side};
use crate::evaluation::{isolated, passed, backward, neighbours, file_pawns, pawn_features, pawn_at};
use crate::components::PieceInfo;
use crate::params::TunableParams;
use crate::pawn_tables::{in_mask, adjacent_file};

verus! {

/// The square `t` seen from the other side of the board: same file, rank counted from the
/// other end.
pub open spec fn mirror_sq(t: int) -> int {
    (7 - t / 8) * 8 + t % 8
}

/// `q` is `pos` with the colours swapped and the ranks turned over: every piece of a side on
/// `t` in `pos` is a piece of the other side on the mirror square of `t` in `q`.
pub open spec fn colour_mirror(pos: BoardState, q: BoardState) -> bool {
    &&& forall|side: Side, piece: Piece, t: int|
        0 <= t < 64 ==> #[trigger] bit_of(q.piece_bb(side, piece), mirror_sq(t)) == bit_of(
            pos.piece_bb(side.spec_flip(), piece),
            t,
        )
    &&& forall|t: int| 0 <= t < 64 ==> #[trigger] bit_of(occupied(q), mirror_sq(t)) == bit_of(occupied(pos), t)
}

proof fn lemma_mirror_sq(t: int)
    requires
        0 <= t < 64,
    ensures
        0 <= mirror_sq(t) < 64,
        mirror_sq(t) % 8 == t % 8,
        mirror_sq(t) / 8 == 7 - t / 8,
        mirror_sq(mirror_sq(t)) == t,
{
}

/// Counting the pawns of `x` on two squares `a` and `b` that hold all of `s`.
proof fn lemma_count_two(x: u64, s: Set<int>, a: int, b: int, n: int)
    requires
        a != b,
        forall|t: int| #[trigger] s.contains(t) ==> t == a || t == b,
        0 <= n <= 64,
    ensures
        count_in(x, s, n) == (if 0 <= a < n && bit_of(x, a) && s.contains(a) { 1int } else { 0int }) + (if 0 <= b < n
            && bit_of(x, b) && s.contains(b) {
            1int
        } else {
            0int
        }),
    decreases n,
{
    if n > 0 {
        lemma_count_two(x, s, a, b, n - 1);
    }
}

/// The number of `side`'s pawns beside `s` on its rank, square by square.
proof fn lemma_neighbours_two(pos: BoardState, side: Side, s: int)
    requires
        0 <= s < 64,
    ensures
        neighbours(pos, side, s) == (if s % 8 > 0 && bit_of(pos.piece_bb(side, Piece::Pawn), s - 1) { 1int } else { 0int })
            + (if s % 8 < 7 && bit_of(pos.piece_bb(side, Piece::Pawn), s + 1) { 1int } else { 0int }),
{
    let st = Set::new(|t: int| in_mask(4, Side::White, s, t));
    assert forall|t: int| #[trigger] st.contains(t) implies t == s - 1 || t == s + 1 by {}
    lemma_count_two(pos.piece_bb(side, Piece::Pawn), st, s - 1, s + 1, 64);
    assert(s % 8 > 0 ==> st.contains(s - 1));
    assert(s % 8 < 7 ==> st.contains(s + 1));
    assert(s % 8 == 0 ==> !st.contains(s - 1));
    assert(s % 8 == 7 ==> !st.contains(s + 1));
}

proof fn lemma_isolated_mirror(pos: BoardState, q: BoardState, side: Side, s: int)
    requires
        colour_mirror(pos, q),
        0 <= s < 64,
    ensures
        isolated(q, side.spec_flip(), mirror_sq(s)) == isolated(pos, side, s),
{
    let m = mirror_sq(s);
    let o = side.spec_flip();
    lemma_mirror_sq(s);
    assert(o.spec_flip() == side);
    assert forall|t: int| 0 <= t < 64 implies #[trigger] bit_of(q.piece_bb(o, Piece::Pawn), mirror_sq(t)) == bit_of(
        pos.piece_bb(side, Piece::Pawn),
        t,
    ) by {}
    assert forall|t: int| 0 <= t < 64 implies #[trigger] bit_of(q.piece_bb(side, Piece::Pawn), mirror_sq(t)) == bit_of(
        pos.piece_bb(o, Piece::Pawn),
        t,
    ) by {}
    reveal(isolated);
    if exists|t: int| 0 <= t < 64 && adjacent_file(s % 8, t) && #[trigger] bit_of(pos.piece_bb(side, Piece::Pawn), t) {
        let t = choose|t: int| 0 <= t < 64 && adjacent_file(s % 8, t) && #[trigger] bit_of(pos.piece_bb(side, Piece::Pawn), t);
        lemma_mirror_sq(t);
        assert(adjacent_file(m % 8, mirror_sq(t)) && bit_of(q.piece_bb(o, Piece::Pawn), mirror_sq(t)));
    }
    if exists|t: int| 0 <= t < 64 && adjacent_file(m % 8, t) && #[trigger] bit_of(q.piece_bb(o, Piece::Pawn), t) {
        let t = choose|t: int| 0 <= t < 64 && adjacent_file(m % 8, t) && #[trigger] bit_of(q.piece_bb(o, Piece::Pawn), t);
        lemma_mirror_sq(t);
        assert(bit_of(q.piece_bb(o, Piece::Pawn), mirror_sq(mirror_sq(t))) == bit_of(pos.piece_bb(side, Piece::Pawn), mirror_sq(t)));
        assert(adjacent_file(s % 8, mirror_sq(t)) && bit_of(pos.piece_bb(side, Piece::Pawn), mirror_sq(t)));
    }
    assert(isolated(q, o, m) == isolated(pos, side, s));
}

proof fn lemma_passed_mirror(pos: BoardState, q: BoardState, side: Side, s: int)
    requires
        colour_mirror(pos, q),
        0 <= s < 64,
    ensures
        passed(q, side.spec_flip(), mirror_sq(s)) == passed(pos, side, s),
{
    let m = mirror_sq(s);
    let o = side.spec_flip();
    lemma_mirror_sq(s);
    assert(o.spec_flip() == side);
    assert forall|t: int| 0 <= t < 64 implies #[trigger] bit_of(q.piece_bb(o, Piece::Pawn), mirror_sq(t)) == bit_of(
        pos.piece_bb(side, Piece::Pawn),
        t,
    ) by {}
    assert forall|t: int| 0 <= t < 64 implies #[trigger] bit_of(q.piece_bb(side, Piece::Pawn), mirror_sq(t)) == bit_of(
        pos.piece_bb(o, Piece::Pawn),
        t,
    ) by {}
    reveal(passed);
    if exists|t: int| 0 <= t < 64 && in_mask(0, side, s, t) && #[trigger] bit_of(pos.piece_bb(o, Piece::Pawn), t) {
        let t = choose|t: int| 0 <= t < 64 && in_mask(0, side, s, t) && #[trigger] bit_of(pos.piece_bb(o, Piece::Pawn), t);
        lemma_mirror_sq(t);
        assert(in_mask(0, o, m, mirror_sq(t)) && bit_of(q.piece_bb(side, Piece::Pawn), mirror_sq(t)));
    }
    if exists|t: int| 0 <= t < 64 && in_mask(0, o, m, t) && #[trigger] bit_of(q.piece_bb(side, Piece::Pawn), t) {
        let t = choose|t: int| 0 <= t < 64 && in_mask(0, o, m, t) && #[trigger] bit_of(q.piece_bb(side, Piece::Pawn), t);
        lemma_mirror_sq(t);
        assert(bit_of(q.piece_bb(side, Piece::Pawn), mirror_sq(mirror_sq(t))) == bit_of(pos.piece_bb(o, Piece::Pawn), mirror_sq(t)));
        assert(in_mask(0, side, s, mirror_sq(t)) && bit_of(pos.piece_bb(o, Piece::Pawn), mirror_sq(t)));
    }
    assert(passed(q, o, m) == passed(pos, side, s));
}

proof fn lemma_backward_mirror(pos: BoardState, q: BoardState, side: Side, s: int)
    requires
        colour_mirror(pos, q),
        0 <= s < 64,
    ensures
        backward(q, side.spec_flip(), mirror_sq(s)) == backward(pos, side, s),
{
    let m = mirror_sq(s);
    let o = side.spec_flip();
    lemma_mirror_sq(s);
    assert(o.spec_flip() == side);
    assert forall|t: int| 0 <= t < 64 implies #[trigger] bit_of(q.piece_bb(o, Piece::Pawn), mirror_sq(t)) == bit_of(
        pos.piece_bb(side, Piece::Pawn),
        t,
    ) by {}
    assert forall|t: int| 0 <= t < 64 implies #[trigger] bit_of(q.piece_bb(side, Piece::Pawn), mirror_sq(t)) == bit_of(
        pos.piece_bb(o, Piece::Pawn),
        t,
    ) by {}
    reveal(backward);
    if exists|t: int| 0 <= t < 64 && in_mask(2, side, s, t) && #[trigger] bit_of(occupied(pos), t) {
        let t = choose|t: int| 0 <= t < 64 && in_mask(2, side, s, t) && #[trigger] bit_of(occupied(pos), t);
        lemma_mirror_sq(t);
        assert(in_mask(2, o, m, mirror_sq(t)) && bit_of(occupied(q), mirror_sq(t)));
    }
    if exists|t: int| 0 <= t < 64 && in_mask(2, o, m, t) && #[trigger] bit_of(occupied(q), t) {
        let t = choose|t: int| 0 <= t < 64 && in_mask(2, o, m, t) && #[trigger] bit_of(occupied(q), t);
        lemma_mirror_sq(t);
        assert(bit_of(occupied(q), mirror_sq(mirror_sq(t))) == bit_of(occupied(pos), mirror_sq(t)));
        assert(in_mask(2, side, s, mirror_sq(t)) && bit_of(occupied(pos), mirror_sq(t)));
    }
    if exists|t: int| 0 <= t < 64 && in_mask(3, side, s, t) && #[trigger] bit_of(pos.piece_bb(side, Piece::Pawn), t) {
        let t = choose|t: int| 0 <= t < 64 && in_mask(3, side, s, t) && #[trigger] bit_of(pos.piece_bb(side, Piece::Pawn), t);
        lemma_mirror_sq(t);
        assert(in_mask(3, o, m, mirror_sq(t)) && bit_of(q.piece_bb(o, Piece::Pawn), mirror_sq(t)));
    }
    if exists|t: int| 0 <= t < 64 && in_mask(3, o, m, t) && #[trigger] bit_of(q.piece_bb(o, Piece::Pawn), t) {
        let t = choose|t: int| 0 <= t < 64 && in_mask(3, o, m, t) && #[trigger] bit_of(q.piece_bb(o, Piece::Pawn), t);
        lemma_mirror_sq(t);
        assert(bit_of(q.piece_bb(o, Piece::Pawn), mirror_sq(mirror_sq(t))) == bit_of(pos.piece_bb(side, Piece::Pawn), mirror_sq(t)));
        assert(in_mask(3, side, s, mirror_sq(t)) && bit_of(pos.piece_bb(side, Piece::Pawn), mirror_sq(t)));
    }
    assert(backward(q, o, m) == backward(pos, side, s));
}

proof fn lemma_file_mirror(pos: BoardState, q: BoardState, side: Side, s: int)
    requires
        colour_mirror(pos, q),
        0 <= s < 64,
    ensures
        file_pawns(q, side.spec_flip(), mirror_sq(s) % 8, 8) == file_pawns(pos, side, s % 8, 8),
{
    let m = mirror_sq(s);
    let o = side.spec_flip();
    lemma_mirror_sq(s);
    assert(o.spec_flip() == side);
    assert forall|t: int| 0 <= t < 64 implies #[trigger] bit_of(q.piece_bb(o, Piece::Pawn), mirror_sq(t)) == bit_of(
        pos.piece_bb(side, Piece::Pawn),
        t,
    ) by {}
    assert forall|t: int| 0 <= t < 64 implies #[trigger] bit_of(q.piece_bb(side, Piece::Pawn), mirror_sq(t)) == bit_of(
        pos.piece_bb(o, Piece::Pawn),
        t,
    ) by {}
    let f = s % 8;
    reveal_with_fuel(file_pawns, 9);
    lemma_mirror_sq(0 * 8 + f);
    assert(mirror_sq(0 * 8 + f) == 7 * 8 + f);
    assert(bit_of(q.piece_bb(o, Piece::Pawn), mirror_sq(0 * 8 + f)) == bit_of(pos.piece_bb(side, Piece::Pawn), 0 * 8 + f));
    lemma_mirror_sq(1 * 8 + f);
    assert(mirror_sq(1 * 8 + f) == 6 * 8 + f);
    assert(bit_of(q.piece_bb(o, Piece::Pawn), mirror_sq(1 * 8 + f)) == bit_of(pos.piece_bb(side, Piece::Pawn), 1 * 8 + f));
    lemma_mirror_sq(2 * 8 + f);
    assert(mirror_sq(2 * 8 + f) == 5 * 8 + f);
    assert(bit_of(q.piece_bb(o, Piece::Pawn), mirror_sq(2 * 8 + f)) == bit_of(pos.piece_bb(side, Piece::Pawn), 2 * 8 + f));
    lemma_mirror_sq(3 * 8 + f);
    assert(mirror_sq(3 * 8 + f) == 4 * 8 + f);
    assert(bit_of(q.piece_bb(o, Piece::Pawn), mirror_sq(3 * 8 + f)) == bit_of(pos.piece_bb(side, Piece::Pawn), 3 * 8 + f));
    lemma_mirror_sq(4 * 8 + f);
    assert(mirror_sq(4 * 8 + f) == 3 * 8 + f);
    assert(bit_of(q.piece_bb(o, Piece::Pawn), mirror_sq(4 * 8 + f)) == bit_of(pos.piece_bb(side, Piece::Pawn), 4 * 8 + f));
    lemma_mirror_sq(5 * 8 + f);
    assert(mirror_sq(5 * 8 + f) == 2 * 8 + f);
    assert(bit_of(q.piece_bb(o, Piece::Pawn), mirror_sq(5 * 8 + f)) == bit_of(pos.piece_bb(side, Piece::Pawn), 5 * 8 + f));
    lemma_mirror_sq(6 * 8 + f);
    assert(mirror_sq(6 * 8 + f) == 1 * 8 + f);
    assert(bit_of(q.piece_bb(o, Piece::Pawn), mirror_sq(6 * 8 + f)) == bit_of(pos.piece_bb(side, Piece::Pawn), 6 * 8 + f));
    lemma_mirror_sq(7 * 8 + f);
    assert(mirror_sq(7 * 8 + f) == 0 * 8 + f);
    assert(bit_of(q.piece_bb(o, Piece::Pawn), mirror_sq(7 * 8 + f)) == bit_of(pos.piece_bb(side, Piece::Pawn), 7 * 8 + f));
    assert(file_pawns(q, o, m % 8, 8) == file_pawns(pos, side, f, 8));
}

proof fn lemma_neighbours_mirror(pos: BoardState, q: BoardState, side: Side, s: int)
    requires
        colour_mirror(pos, q),
        0 <= s < 64,
    ensures
        neighbours(q, side.spec_flip(), mirror_sq(s)) == neighbours(pos, side, s),
{
    let m = mirror_sq(s);
    let o = side.spec_flip();
    lemma_mirror_sq(s);
    assert(o.spec_flip() == side);
    assert forall|t: int| 0 <= t < 64 implies #[trigger] bit_of(q.piece_bb(o, Piece::Pawn), mirror_sq(t)) == bit_of(
        pos.piece_bb(side, Piece::Pawn),
        t,
    ) by {}
    assert forall|t: int| 0 <= t < 64 implies #[trigger] bit_of(q.piece_bb(side, Piece::Pawn), mirror_sq(t)) == bit_of(
        pos.piece_bb(o, Piece::Pawn),
        t,
    ) by {}
    lemma_neighbours_two(pos, side, s);
    lemma_neighbours_two(q, o, m);
    if s % 8 > 0 {
        lemma_mirror_sq(s - 1);
        assert(mirror_sq(s - 1) == m - 1);
    }
    if s % 8 < 7 {
        lemma_mirror_sq(s + 1);
        assert(mirror_sq(s + 1) == m + 1);
    }
    assert(neighbours(q, o, m) == neighbours(pos, side, s));
}

/// The pawn-structure features of a pawn are colour-blind: in the colour-mirrored placement
/// `q`, a pawn of the other side on the mirror square counts exactly what a pawn of `side` on
/// `s` counts in `pos`. In particular a passed pawn's bonus depends on how far it has come
/// from its own side, not on the board's numbering of ranks.
pub proof fn lemma_pawn_features_colour_blind(pos: BoardState, q: BoardState, p: TunableParams, side: Side, s: int, mg: bool)
    requires
        colour_mirror(pos, q),
        0 <= s < 64,
    ensures
        pawn_features(q, p, side.spec_flip(), mirror_sq(s), mg) == pawn_features(pos, p, side, s, mg),
{
    lemma_mirror_sq(s);
    lemma_isolated_mirror(pos, q, side, s);
    lemma_passed_mirror(pos, q, side, s);
    lemma_backward_mirror(pos, q, side, s);
    lemma_file_mirror(pos, q, side, s);
    lemma_neighbours_mirror(pos, q, side, s);
}

/// What stands on a square of `pos`, with its colour swapped.
pub open spec fn swapped(e: Option<PieceInfo>) -> Option<PieceInfo> {
    match e {
        Some(info) => Some(PieceInfo { piece: info.piece, side: info.side.spec_flip() }),
        None => None,
    }
}

/// The pawn-structure value is colour-symmetric: when `q` is `pos` with colours swapped and
/// ranks turned over, square by square as well as board by board, what stands on the mirror
/// square of `s` in `q` counts the negation of what stands on `s` in `pos`. So a black pawn on
/// `s` is worth, against white, what a white pawn on the mirror square is worth for it.
pub proof fn lemma_pawn_at_colour_blind(pos: BoardState, q: BoardState, p: TunableParams, s: int, mg: bool)
    requires
        colour_mirror(pos, q),
        0 <= s < 64,
        q.mb()[mirror_sq(s)] == swapped(pos.mb()[s]),
    ensures
        pawn_at(q, p, mirror_sq(s), mg) == -pawn_at(pos, p, s, mg),
{
    match pos.mb()[s] {
        Some(info) => {
            if info.piece == Piece::Pawn {
                lemma_pawn_features_colour_blind(pos, q, p, info.side, s, mg);
            }
        },
        None => {},
    }
}

} // verus!
