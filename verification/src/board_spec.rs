use vstd::prelude::*;
use crate::components::{
    Piece, PieceInfo, Side, Square, WHITE_00, WHITE_000, BLACK_00, BLACK_000, spec_set_castled,
};
use crate::move_info::{
    mv_from, mv_to, mv_flags, flag_promo_piece, DOUBLE_PAWN, EN_PASSANT, KING_CASTLE, QUEEN_CASTLE,
};
use crate::zobrist::{ZobristKeys, piece_key, pieces_hash, ep_capturable};

verus! {

/// Midgame value of what stands on a square, counted for `side` only.
pub open spec fn sq_mg(e: Option<PieceInfo>, side: Side) -> int {
    match e {
        Some(info) => if info.side == side { info.piece.spec_score().mg as int } else { 0 },
        None => 0,
    }
}

/// Endgame value of what stands on a square, counted for `side` only.
pub open spec fn sq_eg(e: Option<PieceInfo>, side: Side) -> int {
    match e {
        Some(info) => if info.side == side { info.piece.spec_score().eg as int } else { 0 },
        None => 0,
    }
}

/// Midgame material of `side` on the first `n` squares.
pub open spec fn mat_mg(mb: Seq<Option<PieceInfo>>, side: Side, n: int) -> int
    decreases n,
{
    if n <= 0 {
        0
    } else {
        mat_mg(mb, side, n - 1) + sq_mg(mb[n - 1], side)
    }
}

/// Endgame material of `side` on the first `n` squares.
pub open spec fn mat_eg(mb: Seq<Option<PieceInfo>>, side: Side, n: int) -> int
    decreases n,
{
    if n <= 0 {
        0
    } else {
        mat_eg(mb, side, n - 1) + sq_eg(mb[n - 1], side)
    }
}

pub proof fn lemma_mat_update(mb: Seq<Option<PieceInfo>>, side: Side, k: int, v: Option<PieceInfo>, n: int)
    requires
        0 <= k < mb.len(),
        n <= mb.len(),
    ensures
        mat_mg(mb.update(k, v), side, n) == mat_mg(mb, side, n) + (if k < n {
            sq_mg(v, side) - sq_mg(mb[k], side)
        } else {
            0
        }),
        mat_eg(mb.update(k, v), side, n) == mat_eg(mb, side, n) + (if k < n {
            sq_eg(v, side) - sq_eg(mb[k], side)
        } else {
            0
        }),
    decreases n,
{
    if n > 0 {
        lemma_mat_update(mb, side, k, v, n - 1);
    }
}

pub proof fn lemma_mat_bounds(mb: Seq<Option<PieceInfo>>, side: Side, n: int)
    requires
        n <= mb.len(),
    ensures
        0 <= mat_mg(mb, side, n) <= 20000 * (if n < 0 { 0 } else { n }),
        0 <= mat_eg(mb, side, n) <= 20000 * (if n < 0 { 0 } else { n }),
    decreases n,
{
    if n > 0 {
        lemma_mat_bounds(mb, side, n - 1);
    }
}

/// The square of the pawn taken en passant, or passed over by a double push, when a pawn of
/// `stm` lands on `to`.
pub open spec fn ep_victim(stm: Side, to: int) -> int {
    if stm == Side::White {
        to - 8
    } else {
        to + 8
    }
}

/// Rook origin and destination of a castling move from `from`.
pub open spec fn rook_from_sq(fl: u16, from: int) -> int {
    if fl == KING_CASTLE {
        (from / 8) * 8 + 7
    } else {
        (from / 8) * 8
    }
}

pub open spec fn rook_to_sq(fl: u16, from: int) -> int {
    if fl == KING_CASTLE {
        (from / 8) * 8 + 5
    } else {
        (from / 8) * 8 + 3
    }
}

/// A promotion flag (the high flag bit).
pub open spec fn is_promo_move(m: u16) -> bool {
    m & 0x8000 != 0
}

/// The piece kind a move takes: a pawn for en passant, else what stands on the destination.
pub open spec fn captured_of(mb: Seq<Option<PieceInfo>>, m: u16) -> Option<Piece> {
    if mv_flags(m) == EN_PASSANT {
        Some(Piece::Pawn)
    } else {
        match mb[mv_to(m)] {
            Some(info) => Some(info.piece),
            None => None,
        }
    }
}

/// Placement after the piece on the destination is taken off (not for en passant).
pub open spec fn after_capture(mb: Seq<Option<PieceInfo>>, m: u16) -> Seq<Option<PieceInfo>> {
    if mv_flags(m) != EN_PASSANT && mb[mv_to(m)] is Some {
        mb.update(mv_to(m), None)
    } else {
        mb
    }
}

/// Placement after the moving piece goes from origin to destination.
pub open spec fn after_main(mb: Seq<Option<PieceInfo>>, m: u16) -> Seq<Option<PieceInfo>> {
    let mb1 = after_capture(mb, m);
    mb1.update(mv_from(m), None).update(mv_to(m), mb1[mv_from(m)])
}

/// Placement after the whole move by `stm`.
pub open spec fn placed_after(mb: Seq<Option<PieceInfo>>, stm: Side, m: u16) -> Seq<Option<PieceInfo>> {
    let mb2 = after_main(mb, m);
    let fl = mv_flags(m);
    let from = mv_from(m);
    let to = mv_to(m);
    if fl == DOUBLE_PAWN {
        mb2
    } else if fl == EN_PASSANT {
        mb2.update(ep_victim(stm, to), None)
    } else if fl == KING_CASTLE || fl == QUEEN_CASTLE {
        mb2.update(rook_from_sq(fl, from), None).update(rook_to_sq(fl, from), mb2[rook_from_sq(fl, from)])
    } else if is_promo_move(m) {
        mb2.update(to, Some(PieceInfo { piece: flag_promo_piece(fl)->0, side: stm }))
    } else {
        mb2
    }
}

/// What the special part of a move needs after its piece has moved: the pawn passed over by
/// en passant, the castling rook with its destination free, or the pawn to promote.
pub open spec fn tail_ok(mb: Seq<Option<PieceInfo>>, stm: Side, m: u16) -> bool {
    let from = mv_from(m);
    let to = mv_to(m);
    let fl = mv_flags(m);
    let mb2 = after_main(mb, m);
    &&& (fl == EN_PASSANT ==> mb2[ep_victim(stm, to)] == Some(PieceInfo { piece: Piece::Pawn, side: stm.spec_flip() }))
    &&& (fl == KING_CASTLE || fl == QUEEN_CASTLE ==> mb2[rook_from_sq(fl, from)] is Some
        && mb2[rook_to_sq(fl, from)] is None)
    &&& (fl != DOUBLE_PAWN && fl != EN_PASSANT && fl != KING_CASTLE && fl != QUEEN_CASTLE && is_promo_move(m)
        ==> mb2[to] == Some(PieceInfo { piece: Piece::Pawn, side: stm }))
}

/// The move can be carried out on placement `mb` by `stm`.
pub open spec fn make_ok(mb: Seq<Option<PieceInfo>>, stm: Side, m: u16) -> bool {
    let from = mv_from(m);
    let to = mv_to(m);
    let fl = mv_flags(m);
    let opp = stm.spec_flip();
    let mb1 = after_capture(mb, m);
    &&& mb[from] is Some
    &&& (fl != EN_PASSANT && mb[to] is Some ==> mb[to]->0.side == opp)
    &&& mb1[from] is Some
    &&& mb1[to] is None
    &&& tail_ok(mb, stm, m)
}

/// Castling rights after a piece of `stm` goes from `from` to `to`: moving the king or a
/// rook from its home square, or landing on a rook's home square, drops the rights tied to it.
pub open spec fn castle_after_squares(c: u8, stm: Side, from: int, to: int) -> u8 {
    let c1 = if stm == Side::White && from == 4 {
        c & !(WHITE_00 | WHITE_000)
    } else if stm == Side::White && from == 0 {
        c & !WHITE_000
    } else if stm == Side::White && from == 7 {
        c & !WHITE_00
    } else if stm == Side::Black && from == 60 {
        c & !(BLACK_00 | BLACK_000)
    } else if stm == Side::Black && from == 56 {
        c & !BLACK_000
    } else if stm == Side::Black && from == 63 {
        c & !BLACK_00
    } else {
        c
    };
    if to == 0 {
        c1 & !WHITE_000
    } else if to == 7 {
        c1 & !WHITE_00
    } else if to == 56 {
        c1 & !BLACK_000
    } else if to == 63 {
        c1 & !BLACK_00
    } else {
        c1
    }
}

/// Castling rights after the move.
pub open spec fn castling_after(c: u8, stm: Side, m: u16) -> u8 {
    let c1 = if mv_flags(m) == KING_CASTLE {
        spec_set_castled(c, stm)
    } else {
        c
    };
    castle_after_squares(c1, stm, mv_from(m), mv_to(m))
}

/// En passant square after the move: set by a double push when a pawn can take there.
pub open spec fn ep_after(mb: Seq<Option<PieceInfo>>, stm: Side, m: u16) -> Option<Square> {
    let e = ep_victim(stm, mv_to(m));
    if mv_flags(m) == DOUBLE_PAWN && ep_capturable(placed_after(mb, stm, m), stm.spec_flip(), e) {
        Some(Square(e as usize))
    } else {
        None
    }
}

/// The key of `side`'s `piece` on `sq`.
pub open spec fn key_of(keys: ZobristKeys, side: Side, piece: Piece, sq: int) -> u64 {
    keys.pieces[side.spec_index() as int][piece.spec_index() as int][sq]
}

/// The hash after the special part of the move, updated key by key from `h`.
pub open spec fn tail_hash(keys: ZobristKeys, mb: Seq<Option<PieceInfo>>, stm: Side, m: u16, h: u64) -> u64 {
    let from = mv_from(m);
    let to = mv_to(m);
    let fl = mv_flags(m);
    if fl == DOUBLE_PAWN {
        match ep_after(mb, stm, m) {
            Some(sq) => h ^ keys.en_passant_file[(sq.0 % 8) as int],
            None => h,
        }
    } else if fl == EN_PASSANT {
        h ^ key_of(keys, stm.spec_flip(), Piece::Pawn, ep_victim(stm, to))
    } else if fl == KING_CASTLE || fl == QUEEN_CASTLE {
        (h ^ key_of(keys, stm, Piece::Rook, rook_from_sq(fl, from))) ^ key_of(
            keys,
            stm,
            Piece::Rook,
            rook_to_sq(fl, from),
        )
    } else if is_promo_move(m) {
        (h ^ key_of(keys, stm, Piece::Pawn, to)) ^ key_of(keys, stm, flag_promo_piece(fl)->0, to)
    } else {
        h
    }
}

/// The hash after the move, updated key by key from `h`.
pub open spec fn hash_after(
    keys: ZobristKeys,
    mb: Seq<Option<PieceInfo>>,
    stm: Side,
    c: u8,
    ep: Option<Square>,
    h: u64,
    m: u16,
) -> u64 {
    let from = mv_from(m);
    let to = mv_to(m);
    let fl = mv_flags(m);
    let opp = stm.spec_flip();
    let piece = mb[from]->0.piece;
    let h0 = match ep {
        Some(sq) => h ^ keys.en_passant_file[(sq.0 % 8) as int],
        None => h,
    };
    let h1 = h0 ^ keys.castling[(c & 15) as int];
    let h2 = if fl != EN_PASSANT && mb[to] is Some {
        h1 ^ key_of(keys, opp, mb[to]->0.piece, to)
    } else {
        h1
    };
    let h3 = (h2 ^ key_of(keys, stm, piece, from)) ^ key_of(keys, stm, piece, to);
    let h4 = tail_hash(keys, mb, stm, m, h3);
    (h4 ^ keys.castling[(castling_after(c, stm, m) & 15) as int]) ^ keys.black_to_move
}

/// What the hash law needs of a move beyond its being possible: the moving piece and, for
/// castling, the rook belong to `stm`, and a recorded en passant square is one a pawn can
/// take on.
pub open spec fn hash_move_ok(mb: Seq<Option<PieceInfo>>, stm: Side, ep: Option<Square>, m: u16) -> bool {
    let fl = mv_flags(m);
    let from = mv_from(m);
    &&& mb[from]->0.side == stm
    &&& (fl == KING_CASTLE || fl == QUEEN_CASTLE ==> after_main(mb, m)[rook_from_sq(fl, from)] == Some(
        PieceInfo { piece: Piece::Rook, side: stm },
    ))
    &&& (ep matches Some(sq) ==> ep_capturable(mb, stm, sq.0 as int))
}

} // verus!

verus! {

/// Rook origin and destination when castling is taken back: from the square the rook went to,
/// back to its corner; (`to`, `to`) for a destination that no castling has.
pub open spec fn unmake_rook_squares(stm: Side, to: int) -> (int, int) {
    if stm == Side::White && to == 6 {
        (5, 7)
    } else if stm == Side::White && to == 2 {
        (3, 0)
    } else if stm == Side::Black && to == 62 {
        (61, 63)
    } else if stm == Side::Black && to == 58 {
        (59, 56)
    } else {
        (to, to)
    }
}

/// A castling record names one of the four castling destinations of its side.
pub open spec fn castle_record_ok(stm: Side, to: int) -> bool {
    (stm == Side::White && (to == 6 || to == 2)) || (stm == Side::Black && (to == 62 || to == 58))
}

/// Placement after the moving piece goes back (or the promoted piece turns back into a pawn).
pub open spec fn unmade_main(mb: Seq<Option<PieceInfo>>, info: crate::move_info::MoveInfo) -> Seq<Option<PieceInfo>> {
    let from = info.from.0 as int;
    let to = info.to.0 as int;
    match info.promotion {
        Some(pp) => mb.update(to, None).update(from, Some(PieceInfo { piece: Piece::Pawn, side: info.stm })),
        None => mb.update(to, None).update(from, mb[to]),
    }
}

/// The square a taken piece goes back to.
pub open spec fn unmade_capture_sq(info: crate::move_info::MoveInfo) -> int {
    if info.is_en_passant {
        ep_victim(info.stm, info.to.0 as int)
    } else {
        info.to.0 as int
    }
}

/// Placement after the taken piece is put back.
pub open spec fn unmade_capture(mb: Seq<Option<PieceInfo>>, info: crate::move_info::MoveInfo) -> Seq<Option<PieceInfo>> {
    let mba = unmade_main(mb, info);
    match info.captured_piece {
        Some(c) => mba.update(unmade_capture_sq(info), Some(PieceInfo { piece: c, side: info.stm.spec_flip() })),
        None => mba,
    }
}

/// Placement after the whole move is taken back.
pub open spec fn placed_unmade(mb: Seq<Option<PieceInfo>>, info: crate::move_info::MoveInfo) -> Seq<Option<PieceInfo>> {
    let mbb = unmade_capture(mb, info);
    let (rf, rt) = unmake_rook_squares(info.stm, info.to.0 as int);
    if info.is_castling {
        mbb.update(rf, None).update(rt, mbb[rf])
    } else {
        mbb
    }
}

/// The record can be taken back on placement `mb`.
pub open spec fn unmake_ok(mb: Seq<Option<PieceInfo>>, info: crate::move_info::MoveInfo) -> bool {
    let from = info.from.0 as int;
    let to = info.to.0 as int;
    let mba = unmade_main(mb, info);
    let mbb = unmade_capture(mb, info);
    let (rf, rt) = unmake_rook_squares(info.stm, to);
    &&& (info.promotion matches Some(pp) ==> mb[to] == Some(PieceInfo { piece: pp, side: info.stm }) && mb.update(
        to,
        None,
    )[from] is None)
    &&& (info.promotion is None ==> mb[to] is Some && mb[from] is None)
    &&& (info.captured_piece is Some ==> mba[unmade_capture_sq(info)] is None)
    &&& (info.is_castling ==> mbb[rf] is Some && mbb[rt] is None)
}

/// Castling moves have the shape the move generator gives them: king from its home square
/// two squares sideways, king side for the king-side flag.
pub open spec fn castle_shape_ok(stm: Side, m: u16) -> bool {
    let fl = mv_flags(m);
    let from = mv_from(m);
    let to = mv_to(m);
    &&& (fl == KING_CASTLE ==> (stm == Side::White && from == 4 && to == 6) || (stm == Side::Black && from
        == 60 && to == 62))
    &&& (fl == QUEEN_CASTLE ==> (stm == Side::White && from == 4 && to == 2) || (stm == Side::Black && from
        == 60 && to == 58))
}

} // verus!
