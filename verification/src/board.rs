use vstd::prelude::*;
use crate::bitboard::{bit_of, count_bits, lemma_nonzero_has_bit, group_bits, BitBoard};
use crate::board_state::{BoardState, BoardError, occupant};
use crate::board_spec::{
    mat_mg, mat_eg, lemma_mat_update, lemma_mat_bounds, ep_victim, is_promo_move, captured_of,
    after_capture, after_main, placed_after, make_ok, castle_after_squares, castling_after, ep_after,
    key_of, hash_after, hash_move_ok, tail_ok, tail_hash, unmake_rook_squares, castle_record_ok, unmade_main,
    unmade_capture_sq, unmade_capture, placed_unmade, unmake_ok, castle_shape_ok, sq_mg, sq_eg,
    rook_from_sq, rook_to_sq,
};
use crate::components::{
    Piece, PieceInfo, Side, Square, CastlingRights, WHITE_00, WHITE_000, BLACK_00, BLACK_000,
    spec_set_castled,
};
use crate::move_info::{
    Move, MoveInfo, mv_from, mv_to, mv_flags, flag_promo_piece, CAPTURE, DOUBLE_PAWN, EN_PASSANT,
    KING_CASTLE, QUEEN_CASTLE,
};
use crate::move_tables::{pawn_attacks, pawn_attack_target};
use crate::score::{Score, Phase, div_trunc, TOTAL_PHASE, ENDGAME_PHASE};
use crate::fen::{parse_fen, fen_ok, fen_board_fields, fen_text, to_fen, FenError, fen_error};
use crate::attack_data::{calculate_attack_data, checks_square, occupied};
use crate::move_gen::{
    generate_legal_moves as gen_legal, generate_pseudo_legal_moves as gen_pseudo, AllMoves, ForcingMoves,
    keeps_prefix, grows_weak, board_grows, pawns_placed_ok, grows_by, board_fits, plain_flag, move_fits,
};
use crate::move_tables::pawn_push_target;
use crate::move_buffer::MoveBuffer;
use crate::zobrist::calculate_hash;
use vstd::std_specs::bits::u64_trailing_zeros;
use crate::zobrist::{
    ZobristKeys, piece_key, pieces_hash, ep_capturable, ep_key, position_hash, lemma_pieces_hash_update,
    lemma_xor_facts,
};

verus! {

broadcast use group_bits;

/// The whole game state.
#[derive(Debug, PartialEq, Eq, Clone, Copy, Hash)]
pub struct Board {
    /// Where the pieces stand.
    pub positions: BoardState,
    /// Side to move.
    pub stm: Side,
    /// Castling rights of both sides.
    pub castling_rights: CastlingRights,
    /// En passant target square.
    pub enpassant_square: Option<Square>,
    /// Half-moves since the last capture or pawn move.
    pub halfmove_clock: u8,
    /// Full moves, starting at 1 and counted up after each black move.
    pub fullmove_counter: u8,
    /// Material of each side, white first.
    pub material: [Score; 2],
    /// Zobrist hash.
    pub hash: u64,
}

/// The record `make_move` returns for move `m` on board `b`.
pub open spec fn info_of(b: Board, m: u16) -> MoveInfo {
    let mb = b.positions.mb();
    let fl = mv_flags(m);
    MoveInfo {
        from: Square(mv_from(m) as usize),
        to: Square(mv_to(m) as usize),
        stm: b.stm,
        piece_moved: mb[mv_from(m)]->0.piece,
        captured_piece: captured_of(mb, m),
        promotion: flag_promo_piece(fl),
        is_castling: fl == KING_CASTLE || fl == QUEEN_CASTLE,
        is_en_passant: fl == EN_PASSANT,
        castle_rights: b.castling_rights,
        enpassant_square: b.enpassant_square,
        halfmove_clock: b.halfmove_clock,
        zobrist_hash: b.hash,
    }
}

/// What holds after `make_move(m)` took board `b` to board `a`, returning `info`.
pub open spec fn make_post(b: Board, m: u16, info: MoveInfo, a: Board, keys: ZobristKeys) -> bool {
    let mb = b.positions.mb();
    let piece = mb[mv_from(m)]->0.piece;
    &&& a.wf()
    &&& a.positions.mb() == placed_after(mb, b.stm, m)
    &&& a.stm == b.stm.spec_flip()
    &&& a.castling_rights.0 == castling_after(b.castling_rights.0, b.stm, m)
    &&& a.enpassant_square == ep_after(mb, b.stm, m)
    &&& a.halfmove_clock == (if piece == Piece::Pawn || m & CAPTURE != 0 {
        0
    } else {
        b.halfmove_clock + 1
    })
    &&& a.fullmove_counter == (if b.stm == Side::Black {
        b.fullmove_counter + 1
    } else {
        b.fullmove_counter as int
    })
    &&& a.hash == hash_after(keys, mb, b.stm, b.castling_rights.0, b.enpassant_square, b.hash, m)
    &&& info == info_of(b, m)
    &&& (b.hash_ok(keys) && hash_move_ok(mb, b.stm, b.enpassant_square, m) ==> a.hash_ok(keys))
}

/// Panics the move would hit: a double push or en passant landing off the board's middle,
/// or a clock at its limit.
pub open spec fn make_no_panic(b: Board, m: u16) -> bool {
    let mb = b.positions.mb();
    let fl = mv_flags(m);
    &&& (fl == DOUBLE_PAWN || fl == EN_PASSANT ==> 0 <= ep_victim(b.stm, mv_to(m)) < 64)
    &&& (b.halfmove_clock < 255 || (mb[mv_from(m)] matches Some(i) && i.piece == Piece::Pawn) || m & CAPTURE
        != 0)
    &&& (b.stm == Side::Black ==> b.fullmove_counter < 255)
}

proof fn lemma_flag_facts(m: u16)
    ensures
        is_promo_move(m) ==> mv_flags(m) != DOUBLE_PAWN && mv_flags(m) != EN_PASSANT && mv_flags(m)
            != KING_CASTLE && mv_flags(m) != QUEEN_CASTLE && flag_promo_piece(mv_flags(m)) is Some,
        mv_flags(m) == EN_PASSANT ==> m & CAPTURE != 0,
        !is_promo_move(m) ==> flag_promo_piece(mv_flags(m)) is None,
{
    assert(m & 0x8000u16 == 0 ==> ((m & 0xF000u16) != 0x8000u16 && (m & 0xF000u16) != 0x9000u16 && (m
        & 0xF000u16) != 0xA000u16 && (m & 0xF000u16) != 0xB000u16 && (m & 0xF000u16) != 0xC000u16 && (m
        & 0xF000u16) != 0xD000u16 && (m & 0xF000u16) != 0xE000u16 && (m & 0xF000u16) != 0xF000u16))
        by (bit_vector);
    assert(m & 0x8000u16 != 0 ==> ((m & 0xF000u16) == 0x8000u16 || (m & 0xF000u16) == 0x9000u16 || (m
        & 0xF000u16) == 0xA000u16 || (m & 0xF000u16) == 0xB000u16 || (m & 0xF000u16) == 0xC000u16 || (m
        & 0xF000u16) == 0xD000u16 || (m & 0xF000u16) == 0xE000u16 || (m & 0xF000u16) == 0xF000u16))
        by (bit_vector);
    assert((m & 0xF000u16) == 0x5000u16 ==> m & 0x4000u16 != 0) by (bit_vector);
}

proof fn lemma_hash_assembly(h: u64, p0: u64, c0: u64, e0: u64, b0: u64, p1: u64, hp: u64, e1: u64, c1: u64, t: u64)
    requires
        h == ((p0 ^ c0) ^ e0) ^ b0,
        hp ^ p1 == ((h ^ e0) ^ c0) ^ p0,
    ensures
        ((hp ^ e1) ^ c1) ^ t == ((p1 ^ c1) ^ e1) ^ (b0 ^ t),
{
    assert(h == ((p0 ^ c0) ^ e0) ^ b0 && hp ^ p1 == ((h ^ e0) ^ c0) ^ p0 ==> ((hp ^ e1) ^ c1) ^ t == ((p1 ^ c1)
        ^ e1) ^ (b0 ^ t)) by (bit_vector);
}

proof fn lemma_xor_track(h: u64, p: u64, a: u64, b: u64)
    ensures
        (h ^ a) ^ (p ^ (a ^ 0u64)) == h ^ p,
        ((h ^ a) ^ b) ^ ((p ^ (a ^ 0u64)) ^ (0u64 ^ b)) == h ^ p,
        ((h ^ a) ^ b) ^ (p ^ (a ^ b)) == h ^ p,
        (h ^ a) ^ (p ^ (0u64 ^ a)) == h ^ p,
{
    assert((h ^ a) ^ (p ^ (a ^ 0u64)) == h ^ p && ((h ^ a) ^ b) ^ ((p ^ (a ^ 0u64)) ^ (0u64 ^ b)) == h ^ p
        && ((h ^ a) ^ b) ^ (p ^ (a ^ b)) == h ^ p && (h ^ a) ^ (p ^ (0u64 ^ a)) == h ^ p) by (bit_vector);
}

proof fn lemma_xor_swap(h: u64, p: u64, e: u64, k: u64)
    requires
        h ^ p == k ^ e,
    ensures
        (h ^ e) ^ p == k,
        (h ^ e) ^ e == h,
{
    assert(h ^ p == k ^ e ==> (h ^ e) ^ p == k && (h ^ e) ^ e == h) by (bit_vector);
}

/// Whether a pawn of `side` stands where it could take en passant on square `e`.
pub fn pawn_can_take_on(positions: &BoardState, side: Side, e: usize) -> (r: bool)
    requires
        positions.wf(),
        e < 64,
    ensures
        r == ep_capturable(positions.mb(), side, e as int),
{
    let pawns = positions.get_piece_bb(side, Piece::Pawn);
    let att = pawn_attacks(e, side.flip());
    let x = pawns.0 & att.0;
    proof {
        lemma_nonzero_has_bit(x);
        if x != 0 {
            let i = choose|i: int| 0 <= i < 64 && bit_of(x, i);
            assert(bit_of(pawns.0, i) && bit_of(att.0, i));
            assert(att.has(i));
            assert(pawn_attack_target(e as int, i, side.spec_flip()));
            assert(bit_of(positions.piece_bb(side, Piece::Pawn), i));
        } else {
            assert forall|t: int| 0 <= t < 64 && #[trigger] pawn_attack_target(e as int, t, side.spec_flip())
                implies positions.mb()[t] != Some(PieceInfo { piece: Piece::Pawn, side }) by {
                assert(att.has(t));
                assert(!bit_of(x, t));
                assert(!bit_of(positions.piece_bb(side, Piece::Pawn), t));
            }
        }
    }
    x != 0
}

impl Board {
    /// The placement is consistent and the material of each side is the sum of its pieces'
    /// values.
    pub open spec fn wf(&self) -> bool {
        let mb = self.positions.mb();
        &&& self.positions.wf()
        &&& self.material[0].mg == mat_mg(mb, Side::White, 64)
        &&& self.material[0].eg == mat_eg(mb, Side::White, 64)
        &&& self.material[1].mg == mat_mg(mb, Side::Black, 64)
        &&& self.material[1].eg == mat_eg(mb, Side::Black, 64)
        &&& (self.enpassant_square matches Some(sq) ==> sq.0 < 64)
    }

    /// The stored hash is the hash of the position.
    pub open spec fn hash_ok(&self, keys: ZobristKeys) -> bool {
        self.hash == position_hash(keys, self.positions.mb(), self.stm, self.castling_rights.0, self.enpassant_square)
    }

    /// The kind of piece on `square`, if any.
    pub fn get_piece_at(&self, square: Square) -> (r: Option<Piece>)
        requires
            square.0 < 64,
        ensures
            r == (match self.positions.mb()[square.0 as int] {
                Some(info) => Some(info.piece),
                None => None,
            }),
    {
        match self.positions.get_piece_at(&square) {
            Some((p, _)) => Some(p),
            None => None,
        }
    }

    /// Drops the castling rights tied to the squares a move leaves and enters.
    fn update_castling_rights(&mut self, from: Square, to: Square)
        ensures
            final(self).castling_rights.0 == castle_after_squares(old(self).castling_rights.0, old(self).stm, from.0 as int, to.0 as int),
            final(self).positions == old(self).positions,
            final(self).stm == old(self).stm,
            final(self).enpassant_square == old(self).enpassant_square,
            final(self).halfmove_clock == old(self).halfmove_clock,
            final(self).fullmove_counter == old(self).fullmove_counter,
            final(self).material == old(self).material,
            final(self).hash == old(self).hash,
    {
        match (self.stm, from.index()) {
            (Side::White, 4) => self.castling_rights.remove_right(&CastlingRights(WHITE_00 | WHITE_000)),
            (Side::White, 0) => self.castling_rights.remove_right(&CastlingRights(WHITE_000)),
            (Side::White, 7) => self.castling_rights.remove_right(&CastlingRights(WHITE_00)),
            (Side::Black, 60) => self.castling_rights.remove_right(&CastlingRights(BLACK_00 | BLACK_000)),
            (Side::Black, 56) => self.castling_rights.remove_right(&CastlingRights(BLACK_000)),
            (Side::Black, 63) => self.castling_rights.remove_right(&CastlingRights(BLACK_00)),
            _ => {},
        }
        match to.index() {
            0 => self.castling_rights.remove_right(&CastlingRights(WHITE_000)),
            7 => self.castling_rights.remove_right(&CastlingRights(WHITE_00)),
            56 => self.castling_rights.remove_right(&CastlingRights(BLACK_000)),
            63 => self.castling_rights.remove_right(&CastlingRights(BLACK_00)),
            _ => {},
        }
    }

    /// The fields other than placement, material and hash are those of `b`.
    pub open spec fn same_rest(&self, b: Board) -> bool {
        &&& self.stm == b.stm
        &&& self.castling_rights == b.castling_rights
        &&& self.enpassant_square == b.enpassant_square
        &&& self.halfmove_clock == b.halfmove_clock
        &&& self.fullmove_counter == b.fullmove_counter
    }

    /// Takes `side`'s `piece` off square `sq`, with its material and its key.
    fn take_off(&mut self, side: Side, piece: Piece, sq: usize, keys: &ZobristKeys) -> (r: Result<(), BoardError>)
        requires
            old(self).wf(),
            sq < 64,
        ensures
            r is Ok <==> old(self).positions.mb()[sq as int] == Some(PieceInfo { piece, side }),
            r is Ok ==> final(self).wf() && final(self).same_rest(*old(self)) && final(self).positions.mb()
                == old(self).positions.mb().update(sq as int, None) && final(self).hash == old(self).hash ^ key_of(
                *keys,
                side,
                piece,
                sq as int,
            ) && final(self).hash ^ pieces_hash(*keys, final(self).positions.mb(), 64) == old(self).hash
                ^ pieces_hash(*keys, old(self).positions.mb(), 64),
    {
        let ghost b = *self;
        let ghost mb = self.positions.mb();
        match self.positions.remove_piece(side, piece, sq) {
            Ok(()) => {},
            Err(e) => {
                return Err(e);
            },
        }
        proof {
            b.positions.lemma_mb_len();
            lemma_mat_bounds(mb, Side::White, 64);
            lemma_mat_bounds(mb, Side::Black, 64);
            lemma_mat_update(mb, Side::White, sq as int, None, 64);
            lemma_mat_update(mb, Side::Black, sq as int, None, 64);
            lemma_pieces_hash_update(*keys, mb, sq as int, None, 64);
            lemma_xor_track(b.hash, pieces_hash(*keys, mb, 64), key_of(*keys, side, piece, sq as int), 0u64);
        }
        let i = side.index();
        let cur = self.material[i];
        self.material[i] = cur.minus(piece.score());
        self.hash = self.hash ^ keys.piece(side, piece, sq);
        Ok(())
    }

    /// Puts `side`'s `piece` on the empty square `sq`, with its material and its key.
    fn put_on(&mut self, side: Side, piece: Piece, sq: usize, keys: &ZobristKeys) -> (r: Result<(), BoardError>)
        requires
            old(self).wf(),
            sq < 64,
        ensures
            r is Ok <==> old(self).positions.mb()[sq as int] is None,
            r is Ok ==> final(self).wf() && final(self).same_rest(*old(self)) && final(self).positions.mb()
                == old(self).positions.mb().update(sq as int, Some(PieceInfo { piece, side }))
                && final(self).hash == old(self).hash ^ key_of(*keys, side, piece, sq as int) && final(self).hash
                ^ pieces_hash(*keys, final(self).positions.mb(), 64) == old(self).hash ^ pieces_hash(
                *keys,
                old(self).positions.mb(),
                64,
            ),
    {
        let ghost b = *self;
        let ghost mb = self.positions.mb();
        match self.positions.set(side, piece, sq) {
            Ok(()) => {},
            Err(e) => {
                return Err(e);
            },
        }
        proof {
            b.positions.lemma_mb_len();
            lemma_mat_bounds(mb, Side::White, 64);
            lemma_mat_bounds(mb, Side::Black, 64);
            lemma_mat_update(mb, Side::White, sq as int, Some(PieceInfo { piece, side }), 64);
            lemma_mat_update(mb, Side::Black, sq as int, Some(PieceInfo { piece, side }), 64);
            lemma_pieces_hash_update(*keys, mb, sq as int, Some(PieceInfo { piece, side }), 64);
            lemma_xor_track(b.hash, pieces_hash(*keys, mb, 64), key_of(*keys, side, piece, sq as int), 0u64);
        }
        let i = side.index();
        let cur = self.material[i];
        self.material[i] = cur.plus(piece.score());
        self.hash = self.hash ^ keys.piece(side, piece, sq);
        Ok(())
    }

    /// Moves what stands on `from` to the empty square `to`, updating the hash with the keys
    /// of `side`'s `piece` on both squares.
    fn shift(&mut self, from: Square, to: Square, side: Side, piece: Piece, keys: &ZobristKeys) -> (r: Result<(), BoardError>)
        requires
            old(self).wf(),
            from.0 < 64,
            to.0 < 64,
        ensures
            r is Ok <==> (old(self).positions.mb()[from.0 as int] is Some && old(self).positions.mb()[to.0 as int] is None),
            r is Ok ==> final(self).wf() && final(self).same_rest(*old(self)) && final(self).positions.mb()
                == old(self).positions.mb().update(from.0 as int, None).update(
                to.0 as int,
                old(self).positions.mb()[from.0 as int],
            ) && final(self).hash == (old(self).hash ^ key_of(*keys, side, piece, from.0 as int)) ^ key_of(
                *keys,
                side,
                piece,
                to.0 as int,
            ) && (old(self).positions.mb()[from.0 as int] == Some(PieceInfo { piece, side }) ==> final(self).hash
                ^ pieces_hash(*keys, final(self).positions.mb(), 64) == old(self).hash ^ pieces_hash(
                *keys,
                old(self).positions.mb(),
                64,
            )),
    {
        let ghost b = *self;
        let ghost mb = self.positions.mb();
        match self.positions.move_piece(from, to) {
            Ok(()) => {},
            Err(e) => {
                return Err(e);
            },
        }
        proof {
            b.positions.lemma_mb_len();
            let mid = mb.update(from.0 as int, None);
            lemma_mat_update(mb, Side::White, from.0 as int, None, 64);
            lemma_mat_update(mb, Side::Black, from.0 as int, None, 64);
            lemma_mat_update(mid, Side::White, to.0 as int, mb[from.0 as int], 64);
            lemma_mat_update(mid, Side::Black, to.0 as int, mb[from.0 as int], 64);
            lemma_pieces_hash_update(*keys, mb, from.0 as int, None, 64);
            lemma_pieces_hash_update(*keys, mid, to.0 as int, mb[from.0 as int], 64);
            lemma_xor_track(b.hash, pieces_hash(*keys, mb, 64), key_of(*keys, side, piece, from.0 as int), key_of(*keys, side, piece, to.0 as int));
        }
        self.hash = self.hash ^ keys.piece(side, piece, from.index());
        self.hash = self.hash ^ keys.piece(side, piece, to.index());
        Ok(())
    }

    /// Carries out what a move does beyond moving its piece: records the en passant square
    /// after a double push, takes the pawn passed over by en passant, moves the castling rook,
    /// or turns the pawn on the last rank into the promoted piece.
    #[verifier::rlimit(60)]
    fn finish_move(&mut self, m: Move, keys: &ZobristKeys, Ghost(mb0): Ghost<Seq<Option<PieceInfo>>>) -> (r: Result<(), BoardError>)
        requires
            old(self).wf(),
            old(self).enpassant_square is None,
            old(self).positions.mb() == after_main(mb0, m.0),
            mb0.len() == 64,
            mv_flags(m.0) == DOUBLE_PAWN || mv_flags(m.0) == EN_PASSANT ==> 0 <= ep_victim(old(self).stm, mv_to(m.0)) < 64,
        ensures
            r is Ok <==> tail_ok(mb0, old(self).stm, m.0),
            r is Ok ==> final(self).wf(),
            r is Ok ==> final(self).positions.mb() == placed_after(mb0, old(self).stm, m.0),
            r is Ok ==> final(self).stm == old(self).stm,
            r is Ok ==> final(self).castling_rights.0 == (if mv_flags(m.0) == KING_CASTLE {
                spec_set_castled(old(self).castling_rights.0, old(self).stm)
            } else {
                old(self).castling_rights.0
            }),
            r is Ok ==> final(self).enpassant_square == ep_after(mb0, old(self).stm, m.0),
            r is Ok ==> final(self).halfmove_clock == old(self).halfmove_clock,
            r is Ok ==> final(self).fullmove_counter == old(self).fullmove_counter,
            r is Ok ==> final(self).hash == tail_hash(*keys, mb0, old(self).stm, m.0, old(self).hash),
            r is Ok && ((mv_flags(m.0) == KING_CASTLE || mv_flags(m.0) == QUEEN_CASTLE) ==> after_main(mb0, m.0)[rook_from_sq(
                mv_flags(m.0),
                mv_from(m.0),
            )] == Some(PieceInfo { piece: Piece::Rook, side: old(self).stm })) ==> final(self).hash ^ pieces_hash(
                *keys,
                final(self).positions.mb(),
                64,
            ) == (old(self).hash ^ pieces_hash(*keys, old(self).positions.mb(), 64)) ^ ep_key(
                *keys,
                final(self).positions.mb(),
                old(self).stm.spec_flip(),
                final(self).enpassant_square,
            ),
    {
        let ghost b = *self;
        let stm = self.stm;
        let opponent = stm.flip();
        let from = m.from_sq();
        let to = m.to_sq();
        let fl = m.flags();
        proof {
            lemma_flag_facts(m.0);
            crate::move_info::lemma_move_fields_bounded(m.0);
            self.positions.lemma_mb_len();
            lemma_xor_facts(b.hash ^ pieces_hash(*keys, b.positions.mb(), 64), 0u64, 0u64);
        }
        if fl == DOUBLE_PAWN {
            let ep_sq_idx = if stm == Side::White { to.index() - 8 } else { to.index() + 8 };
            if pawn_can_take_on(&self.positions, opponent, ep_sq_idx) {
                self.enpassant_square = Some(Square(ep_sq_idx));
                self.hash = self.hash ^ keys.en_passant_file[ep_sq_idx % 8];
                proof {
                    let e = keys.en_passant_file[(ep_sq_idx % 8) as int];
                    let p = pieces_hash(*keys, b.positions.mb(), 64);
                    lemma_xor_facts(b.hash, e, p);
                    lemma_xor_facts(b.hash, p, e);
                    lemma_xor_facts(e, p, 0u64);
                }
            }
        } else if fl == EN_PASSANT {
            let captured_pawn_idx = if stm == Side::White { to.index() - 8 } else { to.index() + 8 };
            match self.take_off(opponent, Piece::Pawn, captured_pawn_idx, keys) {
                Ok(()) => {},
                Err(e) => {
                    return Err(e);
                },
            }
        } else if fl == KING_CASTLE || fl == QUEEN_CASTLE {
            let row = from.row();
            let (rf, rt) = if fl == KING_CASTLE { (row * 8 + 7, row * 8 + 5) } else { (row * 8, row * 8 + 3) };
            match self.shift(Square(rf), Square(rt), stm, Piece::Rook, keys) {
                Ok(()) => {},
                Err(e) => {
                    return Err(e);
                },
            }
            if fl == KING_CASTLE {
                self.castling_rights.set_castled(stm);
            }
        } else if m.is_promotion() {
            let promo_piece = match m.promoted_piece() {
                Some(p) => p,
                None => Piece::Queen,
            };
            match self.take_off(stm, Piece::Pawn, to.index(), keys) {
                Ok(()) => {},
                Err(e) => {
                    return Err(e);
                },
            }
            match self.put_on(stm, promo_piece, to.index(), keys) {
                Ok(()) => {},
                Err(e) => {
                    return Err(e);
                },
            }
        }
        proof {
            assert(self.positions.mb() =~= placed_after(mb0, b.stm, m.0));
        }
        Ok(())
    }

    /// Applies a move produced for this position, updating the hash key by key, and returns
    /// what is needed to take it back. It fails, leaving the board in an unspecified state,
    /// when the pieces the move names are not where it needs them.
    #[verifier::rlimit(100)]
    #[verifier::spinoff_prover]
    pub fn make_move(&mut self, m: Move, keys: &ZobristKeys) -> (r: Result<MoveInfo, BoardError>)
        requires
            old(self).wf(),
            make_no_panic(*old(self), m.0),
        ensures
            r is Ok <==> make_ok(old(self).positions.mb(), old(self).stm, m.0),
            r matches Ok(info) ==> make_post(*old(self), m.0, info, *final(self), *keys),
    {
        let ghost b = *self;
        let ghost mb0 = self.positions.mb();
        let from = m.from_sq();
        let to = m.to_sq();
        let piece = match self.positions.get_piece_at(&from) {
            Some((p, _)) => p,
            None => {
                return Err(BoardError::EmptySquare);
            },
        };
        let stm = self.stm;
        let opponent = stm.flip();
        let fl = m.flags();
        let is_ep = m.is_enpassant();
        let captured = if is_ep {
            Some(Piece::Pawn)
        } else {
            match self.positions.get_piece_at(&to) {
                Some((p, _)) => Some(p),
                None => None,
            }
        };
        let move_data = MoveInfo {
            from,
            to,
            stm,
            piece_moved: piece,
            castle_rights: self.castling_rights,
            enpassant_square: self.enpassant_square,
            halfmove_clock: self.halfmove_clock,
            zobrist_hash: self.hash,
            is_castling: m.is_castling(),
            is_en_passant: is_ep,
            promotion: m.promoted_piece(),
            captured_piece: captured,
        };
        proof {
            lemma_flag_facts(m.0);
            self.positions.lemma_mb_len();
        }
        let ghost e0v: u64 = match self.enpassant_square {
            Some(sq) => keys.en_passant_file[(sq.0 % 8) as int],
            None => 0u64,
        };
        match self.enpassant_square {
            Some(ep_sq) => {
                self.hash = self.hash ^ keys.en_passant_file[ep_sq.col()];
            },
            None => {},
        }
        self.enpassant_square = None;
        let c0 = self.castling_rights.get_rights();
        self.hash = self.hash ^ keys.castling[c0 as usize];
        let ghost k_inv: u64 = self.hash ^ pieces_hash(*keys, mb0, 64);
        let ghost b1 = *self;
        proof {
            if b.enpassant_square is None {
                lemma_xor_facts(b.hash, 0u64, 0u64);
            }
            assert(self.hash == (b.hash ^ e0v) ^ keys.castling[(b.castling_rights.0 & 15) as int]);
        }
        if !is_ep {
            match captured {
                Some(cp) => {
                    match self.take_off(opponent, cp, to.index(), keys) {
                        Ok(()) => {},
                        Err(e) => {
                            return Err(e);
                        },
                    }
                },
                None => {},
            }
        }
        proof {
            assert(self.positions.mb() == after_capture(mb0, m.0));
            assert(self.hash ^ pieces_hash(*keys, self.positions.mb(), 64) == k_inv);
            assert(self.same_rest(b1));
        }
        match self.shift(from, to, stm, piece, keys) {
            Ok(()) => {},
            Err(e) => {
                return Err(e);
            },
        }
        let ghost mb2 = self.positions.mb();
        proof {
            assert(mb2 == after_main(mb0, m.0));
        }
        match self.finish_move(m, keys, Ghost(mb0)) {
            Ok(()) => {},
            Err(e) => {
                return Err(e);
            },
        }
        let ghost h_pre = self.hash;
        let ghost mb_final = self.positions.mb();
        self.update_castling_rights(from, to);
        let c1 = self.castling_rights.get_rights();
        self.hash = self.hash ^ keys.castling[c1 as usize];
        if piece == Piece::Pawn || m.is_capture() {
            self.halfmove_clock = 0;
        } else {
            self.halfmove_clock = self.halfmove_clock + 1;
        }
        if stm == Side::Black {
            self.fullmove_counter = self.fullmove_counter + 1;
        }
        self.stm = opponent;
        self.hash = self.hash ^ keys.black_to_move;
        proof {
            assert(self.castling_rights.0 == castling_after(b.castling_rights.0, b.stm, m.0));
            if b.hash_ok(*keys) && hash_move_ok(mb0, b.stm, b.enpassant_square, m.0) {
                let p0 = pieces_hash(*keys, mb0, 64);
                let p1 = pieces_hash(*keys, mb_final, 64);
                let c0k = keys.castling[(b.castling_rights.0 & 15) as int];
                let c1k = keys.castling[(self.castling_rights.0 & 15) as int];
                let b0 = if b.stm == Side::Black { keys.black_to_move } else { 0u64 };
                let bb1 = if self.stm == Side::Black { keys.black_to_move } else { 0u64 };
                let e1 = ep_key(*keys, mb_final, self.stm, self.enpassant_square);
                assert(e0v == ep_key(*keys, mb0, b.stm, b.enpassant_square));
                let hp = h_pre ^ e1;
                lemma_xor_swap(h_pre, p1, e1, k_inv);
                assert(hp ^ p1 == ((b.hash ^ e0v) ^ c0k) ^ p0);
                lemma_hash_assembly(b.hash, p0, c0k, e0v, b0, p1, hp, e1, c1k, keys.black_to_move);
                lemma_xor_facts(keys.black_to_move, 0u64, 0u64);
                assert(bb1 == b0 ^ keys.black_to_move);
            }
        }
        Ok(move_data)
    }

    /// Takes back a move from the record `make_move` returned. It fails, leaving the board in
    /// an unspecified state, when the pieces the record names are not where it needs them;
    /// taking back a move that was just made always succeeds and gives back the board it was
    /// made on.
    pub fn unmake_move(&mut self, move_data: &MoveInfo) -> (r: Result<(), BoardError>)
        requires
            old(self).wf(),
            unmake_no_panic(*old(self), *move_data),
        ensures
            r is Ok <==> unmake_ok(old(self).positions.mb(), *move_data),
            r is Ok ==> unmake_post(*old(self), *move_data, *final(self)),
            forall|b: Board, m: u16, k: ZobristKeys|
                #![trigger make_post(b, m, *move_data, *old(self), k)]
                b.wf() && make_no_panic(b, m) && make_ok(b.positions.mb(), b.stm, m) && castle_shape_ok(b.stm, m)
                    && make_post(b, m, *move_data, *old(self), k) ==> r is Ok && *final(self) == b,
    {
        let ghost a = *self;
        let r = self.unmake_placed(move_data);
        proof {
            assert forall|b: Board, m: u16, k: ZobristKeys|
                #![trigger make_post(b, m, *move_data, a, k)]
                b.wf() && make_no_panic(b, m) && make_ok(b.positions.mb(), b.stm, m) && castle_shape_ok(b.stm, m)
                    && make_post(b, m, *move_data, a, k) implies r is Ok && *self == b by {
                lemma_unmake_undoes_make(b, m, *move_data, a, *self, k);
            }
        }
        r
    }

    /// Takes back the move the record describes, as `unmake_move` does.
    #[verifier::rlimit(60)]
    fn unmake_placed(&mut self, move_data: &MoveInfo) -> (r: Result<(), BoardError>)
        requires
            old(self).wf(),
            unmake_no_panic(*old(self), *move_data),
        ensures
            r is Ok <==> unmake_ok(old(self).positions.mb(), *move_data),
            r is Ok ==> unmake_post(*old(self), *move_data, *final(self)),
    {
        let ghost a = *self;
        let ghost mb0 = self.positions.mb();
        proof {
            self.positions.lemma_mb_len();
            lemma_mat_bounds(mb0, Side::White, 64);
            lemma_mat_bounds(mb0, Side::Black, 64);
        }
        self.stm = move_data.stm;
        self.castling_rights = move_data.castle_rights;
        self.enpassant_square = move_data.enpassant_square;
        self.halfmove_clock = move_data.halfmove_clock;
        self.hash = move_data.zobrist_hash;
        if self.stm == Side::Black {
            self.fullmove_counter = self.fullmove_counter - 1;
        }
        let from = move_data.from;
        let to = move_data.to;
        let stm = self.stm;
        let opponent = stm.flip();
        let si = stm.index();
        let oi = opponent.index();
        match move_data.promotion {
            Some(promoted_piece) => {
                let cur = self.material[si];
                let cur = cur.minus(promoted_piece.score());
                self.material[si] = cur.plus(Piece::Pawn.score());
                match self.positions.remove_piece(stm, promoted_piece, to.index()) {
                    Ok(()) => {},
                    Err(e) => {
                        return Err(e);
                    },
                }
                match self.positions.set(stm, Piece::Pawn, from.index()) {
                    Ok(()) => {},
                    Err(e) => {
                        return Err(e);
                    },
                }
                proof {
                    let mid = mb0.update(to.0 as int, None);
                    lemma_mat_update(mb0, Side::White, to.0 as int, None, 64);
                    lemma_mat_update(mb0, Side::Black, to.0 as int, None, 64);
                    lemma_mat_update(mid, Side::White, from.0 as int, Some(PieceInfo { piece: Piece::Pawn, side: stm }), 64);
                    lemma_mat_update(mid, Side::Black, from.0 as int, Some(PieceInfo { piece: Piece::Pawn, side: stm }), 64);
                }
            },
            None => {
                match self.positions.move_piece(to, from) {
                    Ok(()) => {},
                    Err(e) => {
                        return Err(e);
                    },
                }
                proof {
                    let mid = mb0.update(to.0 as int, None);
                    lemma_mat_update(mb0, Side::White, to.0 as int, None, 64);
                    lemma_mat_update(mb0, Side::Black, to.0 as int, None, 64);
                    lemma_mat_update(mid, Side::White, from.0 as int, mb0[to.0 as int], 64);
                    lemma_mat_update(mid, Side::Black, from.0 as int, mb0[to.0 as int], 64);
                }
            },
        }
        let ghost mba = self.positions.mb();
        proof {
            assert(mba =~= unmade_main(mb0, *move_data));
            lemma_mat_bounds(mba, Side::White, 64);
            lemma_mat_bounds(mba, Side::Black, 64);
        }
        match move_data.captured_piece {
            Some(captured) => {
                let cur = self.material[oi];
                self.material[oi] = cur.plus(captured.score());
                let idx = if move_data.is_en_passant {
                    if stm == Side::White { to.index() - 8 } else { to.index() + 8 }
                } else {
                    to.index()
                };
                match self.positions.set(opponent, captured, idx) {
                    Ok(()) => {},
                    Err(e) => {
                        return Err(e);
                    },
                }
                proof {
                    lemma_mat_update(mba, Side::White, idx as int, Some(PieceInfo { piece: captured, side: opponent }), 64);
                    lemma_mat_update(mba, Side::Black, idx as int, Some(PieceInfo { piece: captured, side: opponent }), 64);
                }
            },
            None => {},
        }
        let ghost mbb = self.positions.mb();
        proof {
            assert(mbb =~= unmade_capture(mb0, *move_data));
        }
        if move_data.is_castling {
            let (rook_from, rook_to): (usize, usize) = match (stm, to.index()) {
                (Side::White, 6) => (5, 7),
                (Side::White, 2) => (3, 0),
                (Side::Black, 62) => (61, 63),
                _ => (59, 56),
            };
            match self.positions.move_piece(Square(rook_from), Square(rook_to)) {
                Ok(()) => {},
                Err(e) => {
                    return Err(e);
                },
            }
            proof {
                let mid = mbb.update(rook_from as int, None);
                lemma_mat_update(mbb, Side::White, rook_from as int, None, 64);
                lemma_mat_update(mbb, Side::Black, rook_from as int, None, 64);
                lemma_mat_update(mid, Side::White, rook_to as int, mbb[rook_from as int], 64);
                lemma_mat_update(mid, Side::Black, rook_to as int, mbb[rook_from as int], 64);
            }
        }
        proof {
            assert(self.positions.mb() =~= placed_unmade(mb0, *move_data));
        }
        Ok(())
    }
}

/// Panics taking back a record would hit: squares off the board, a move counter of 0 for
/// black, an en passant square off the board's middle, or castling to no castling square.
pub open spec fn unmake_no_panic(a: Board, info: MoveInfo) -> bool {
    &&& info.from.0 < 64
    &&& info.to.0 < 64
    &&& (info.stm == Side::Black ==> a.fullmove_counter > 0)
    &&& (info.is_en_passant && info.captured_piece is Some ==> 0 <= ep_victim(info.stm, info.to.0 as int) < 64)
    &&& (info.is_castling ==> castle_record_ok(info.stm, info.to.0 as int))
}

/// What holds after `unmake_move(info)` took board `a` to board `c`.
pub open spec fn unmake_post(a: Board, info: MoveInfo, c: Board) -> bool {
    &&& c.positions.wf()
    &&& c.positions.mb() == placed_unmade(a.positions.mb(), info)
    &&& c.material[0].mg == mat_mg(c.positions.mb(), Side::White, 64)
    &&& c.material[0].eg == mat_eg(c.positions.mb(), Side::White, 64)
    &&& c.material[1].mg == mat_mg(c.positions.mb(), Side::Black, 64)
    &&& c.material[1].eg == mat_eg(c.positions.mb(), Side::Black, 64)
    &&& c.stm == info.stm
    &&& c.castling_rights == info.castle_rights
    &&& c.enpassant_square == info.enpassant_square
    &&& c.halfmove_clock == info.halfmove_clock
    &&& c.fullmove_counter == (if info.stm == Side::Black {
        a.fullmove_counter - 1
    } else {
        a.fullmove_counter as int
    })
    &&& c.hash == info.zobrist_hash
}


/// Making the same move on the same board gives one and the same board.
pub proof fn lemma_make_post_unique(b: Board, m: u16, i1: MoveInfo, a1: Board, i2: MoveInfo, a2: Board, keys: ZobristKeys)
    requires
        make_post(b, m, i1, a1, keys),
        make_post(b, m, i2, a2, keys),
    ensures
        a1 == a2,
        i1 == i2,
{
    BoardState::lemma_eq_from_mb(a1.positions, a2.positions);
    assert(a1.material =~= a2.material);
    assert(a1.castling_rights == a2.castling_rights);
}

/// Taking back a move with the record that making it returned gives back exactly the board
/// the move was made on.
pub proof fn lemma_unmake_undoes_make(b: Board, m: u16, info: MoveInfo, a: Board, c: Board, keys: ZobristKeys)
    requires
        b.wf(),
        make_no_panic(b, m),
        make_ok(b.positions.mb(), b.stm, m),
        castle_shape_ok(b.stm, m),
        make_post(b, m, info, a, keys),
    ensures
        unmake_no_panic(a, info),
        unmake_ok(a.positions.mb(), info),
        unmake_post(a, info, c) ==> c == b,
{
    let mb = b.positions.mb();
    let from = mv_from(m);
    let to = mv_to(m);
    let fl = mv_flags(m);
    let stm = b.stm;
    let opp = stm.spec_flip();
    lemma_flag_facts(m);
    crate::move_info::lemma_move_fields_bounded(m);
    b.positions.lemma_mb_len();
    let mb1 = after_capture(mb, m);
    let mb2 = after_main(mb, m);
    let pa = placed_after(mb, stm, m);
    assert(a.positions.mb() == pa);
    assert(from != to);
    assert(mb1[from] == mb[from]);
    if fl == EN_PASSANT {
        let v = ep_victim(stm, to);
        assert(v != from && v != to);
        assert(unmade_main(pa, info) =~= mb.update(v, None));
        assert(unmade_capture(pa, info) =~= mb);
    } else if fl == KING_CASTLE || fl == QUEEN_CASTLE {
        let rf = rook_from_sq(fl, from);
        let rt = rook_to_sq(fl, from);
        assert(unmake_rook_squares(stm, to) == (rt, rf));
        assert(unmade_main(pa, info) =~= mb1.update(rf, None).update(rt, mb2[rf]));
        assert(unmade_capture(pa, info) =~= mb.update(rf, None).update(rt, mb2[rf]));
        assert(placed_unmade(pa, info) =~= mb);
    } else if is_promo_move(m) {
        assert(mb[from] == Some(PieceInfo { piece: Piece::Pawn, side: stm }));
        assert(unmade_main(pa, info) =~= mb1);
        assert(unmade_capture(pa, info) =~= mb);
    } else {
        assert(unmade_main(pa, info) =~= mb1);
        assert(unmade_capture(pa, info) =~= mb);
    }
    assert(placed_unmade(pa, info) =~= mb);
    if unmake_post(a, info, c) {
        BoardState::lemma_eq_from_mb(c.positions, b.positions);
        assert(c.material[0] == b.material[0]);
        assert(c.material[1] == b.material[1]);
        assert(c.material =~= b.material);
    }
}

/// What holds after a null move took board `b` to board `a`: the other side is to move, the
/// en passant square is gone, and the hash drops that square's key and flips the side key;
/// all else stays.
pub open spec fn null_move_post(b: Board, a: Board, keys: ZobristKeys) -> bool {
    &&& a.positions == b.positions
    &&& a.material == b.material
    &&& a.castling_rights == b.castling_rights
    &&& a.halfmove_clock == b.halfmove_clock
    &&& a.fullmove_counter == b.fullmove_counter
    &&& a.enpassant_square is None
    &&& a.stm == b.stm.spec_flip()
    &&& a.hash == (match b.enpassant_square {
        Some(sq) => b.hash ^ keys.en_passant_file[(sq.0 % 8) as int],
        None => b.hash,
    }) ^ keys.black_to_move
}

/// A null move keeps the hash the hash of the position, when the en passant square it clears
/// (if any) is one the side to move could take on.
pub proof fn lemma_null_move_keeps_hash(b: Board, a: Board, keys: ZobristKeys)
    requires
        b.hash_ok(keys),
        b.enpassant_square matches Some(sq) ==> ep_capturable(b.positions.mb(), b.stm, sq.0 as int),
        null_move_post(b, a, keys),
    ensures
        a.hash_ok(keys),
{
    let mb = b.positions.mb();
    let p = pieces_hash(keys, mb, 64);
    let c = keys.castling[(b.castling_rights.0 & 15) as int];
    let e = ep_key(keys, mb, b.stm, b.enpassant_square);
    let t = keys.black_to_move;
    let sb: u64 = if b.stm == Side::Black { t } else { 0u64 };
    let sa: u64 = if a.stm == Side::Black { t } else { 0u64 };
    assert(b.hash == p ^ c ^ e ^ sb);
    assert(ep_key(keys, mb, a.stm, a.enpassant_square) == 0u64);
    lemma_xor_facts(b.hash, 0u64, 0u64);
    assert(a.hash == (b.hash ^ e) ^ t);
    let x = p ^ c;
    assert(a.hash == x ^ sa) by {
        assert(b.hash == ((x ^ e) ^ sb));
        assert(((x ^ e) ^ sb) ^ e == x ^ sb) by (bit_vector);
        assert((x ^ sb) ^ t == x ^ sa) by (bit_vector)
            requires
                (sb == t && sa == 0u64) || (sb == 0u64 && sa == t);
    }
    assert(a.positions.mb() == mb);
    assert(a.castling_rights.0 == b.castling_rights.0);
    lemma_xor_facts(x, 0u64, 0u64);
    assert(position_hash(keys, a.positions.mb(), a.stm, a.castling_rights.0, a.enpassant_square) == (x ^ 0u64) ^ sa);
}

/// `x`'s bits are among `y`'s.
spec fn bits_within(x: u8, y: u8) -> bool {
    x & !y == 0
}

proof fn lemma_mask_facts(x: u8, y: u8, z: u8, k: u8)
    ensures
        bits_within(x & k, x),
        bits_within(x, y) && bits_within(y, z) ==> bits_within(x, z),
        k & 0x30 == 0x30 ==> bits_within(x & 0x30, x & k),
        bits_within(x & 0x30, y) && bits_within(y & 0x30, z) ==> bits_within(x & 0x30, z),
        bits_within(x, y) ==> bits_within(x & 0x0F, y),
{
    assert((x & k) & !x == 0 && ((x & !y == 0 && y & !z == 0) ==> x & !z == 0) && (k & 0x30 == 0x30 ==> (x & 0x30)
        & !(x & k) == 0) && (((x & 0x30) & !y == 0 && (y & 0x30) & !z == 0) ==> (x & 0x30) & !z == 0) && (x & !y == 0
        ==> (x & 0x0F) & !y == 0)) by (bit_vector);
}

proof fn lemma_squares_within(c: u8, stm: Side, from: int, to: int)
    ensures
        bits_within(castle_after_squares(c, stm, from, to), c),
        bits_within(c & 0x30, castle_after_squares(c, stm, from, to)),
{
    let r = castle_after_squares(c, stm, from, to);
    assert(!(WHITE_00 | WHITE_000) & 0x30 == 0x30 && !WHITE_000 & 0x30 == 0x30 && !WHITE_00 & 0x30 == 0x30 && !(
    BLACK_00 | BLACK_000) & 0x30 == 0x30 && !BLACK_000 & 0x30 == 0x30 && !BLACK_00 & 0x30 == 0x30 && 0xFFu8 & 0x30 == 0x30) by (bit_vector);
    let c1 = if stm == Side::White && from == 4 {
        c & !(WHITE_00 | WHITE_000)
    } else if stm == Side::White && from == 0 {
        c & !WHITE_000
    } else if stm == Side::White && from == 7 {
        c & !WHITE_00
    } else if stm == Side::Black && from == 60 {
        c & !(BLACK_00 | BLACK_000)
    } else if stm == Side::Black && from == 56 {
        c & !BLACK_000
    } else if stm == Side::Black && from == 63 {
        c & !BLACK_00
    } else {
        c & 0xFF
    };
    assert(c & 0xFF == c) by (bit_vector);
    let k1: u8 = if stm == Side::White && from == 4 {
        !(WHITE_00 | WHITE_000)
    } else if stm == Side::White && from == 0 {
        !WHITE_000
    } else if stm == Side::White && from == 7 {
        !WHITE_00
    } else if stm == Side::Black && from == 60 {
        !(BLACK_00 | BLACK_000)
    } else if stm == Side::Black && from == 56 {
        !BLACK_000
    } else if stm == Side::Black && from == 63 {
        !BLACK_00
    } else {
        0xFF
    };
    assert(c1 == c & k1);
    let k2: u8 = if to == 0 {
        !WHITE_000
    } else if to == 7 {
        !WHITE_00
    } else if to == 56 {
        !BLACK_000
    } else if to == 63 {
        !BLACK_00
    } else {
        0xFF
    };
    assert(c1 & 0xFF == c1) by (bit_vector);
    assert(r == c1 & k2);
    lemma_mask_facts(c, c, c, k1);
    lemma_mask_facts(c1, c1, c1, k2);
    lemma_mask_facts(r, c1, c, 0);
    lemma_mask_facts(c, c1, r, k1);
}

/// Making a move never gives back a castling right: each of the four rights held after the
/// move was held before it; and a side's castled mark, once set, stays set.
pub proof fn lemma_rights_never_return(b: Board, m: u16, info: MoveInfo, a: Board, keys: ZobristKeys)
    requires
        make_post(b, m, info, a, keys),
    ensures
        a.castling_rights.0 & 0x0F & !b.castling_rights.0 == 0,
        (b.castling_rights.0 & 0x30) & !a.castling_rights.0 == 0,
{
    let c = b.castling_rights.0;
    let stm = b.stm;
    let c1 = if mv_flags(m) == KING_CASTLE { spec_set_castled(c, stm) } else { c };
    lemma_squares_within(c1, stm, mv_from(m), mv_to(m));
    let r = a.castling_rights.0;
    assert(r == castle_after_squares(c1, stm, mv_from(m), mv_to(m)));
    if mv_flags(m) == KING_CASTLE {
        let f: u8 = if stm == Side::White { 0x10 } else { 0x20 };
        let k: u8 = if stm == Side::White { !(WHITE_00 | WHITE_000) } else { !(BLACK_00 | BLACK_000) };
        assert(c1 == (c | f) & k);
        assert(((c | 0x10u8) & !(WHITE_00 | WHITE_000)) & 0x0F & !c == 0 && ((c | 0x20u8) & !(BLACK_00 | BLACK_000))
            & 0x0F & !c == 0 && (c & 0x30) & !((c | 0x10u8) & !(WHITE_00 | WHITE_000)) == 0 && (c & 0x30) & !((c
            | 0x20u8) & !(BLACK_00 | BLACK_000)) == 0 && (r & !c1 == 0 && (c1 & 0x0F) & !c == 0 ==> r & 0x0F & !c
            == 0)) by (bit_vector);
        lemma_mask_facts(c, c1, r, 0);
    } else {
        lemma_mask_facts(r, c, c, 0);
    }
}

/// The start position.
pub const START_FEN: &'static str = "rnbqkbnr/pppppppp/8/8/8/8/PPPPPPPP/RNBQKBNR w KQkq - 0 1";

/// `v` kept within the phase range 0..=256.
pub open spec fn phase_clamp(v: int) -> int {
    if v < 0 {
        0
    } else if v > ENDGAME_PHASE {
        ENDGAME_PHASE as int
    } else {
        v
    }
}

/// Sum of the phase weights of the pieces on the first `n` squares.
pub open spec fn phase_sum(mb: Seq<Option<PieceInfo>>, n: int) -> int
    decreases n,
{
    if n <= 0 {
        0
    } else {
        phase_sum(mb, n - 1) + match mb[n - 1] {
            Some(info) => info.piece.spec_phase() as int,
            None => 0,
        }
    }
}

pub proof fn lemma_phase_bounds(mb: Seq<Option<PieceInfo>>, n: int)
    ensures
        0 <= phase_sum(mb, n) <= 4 * (if n < 0 { 0 } else { n }),
    decreases n,
{
    if n > 0 {
        lemma_phase_bounds(mb, n - 1);
    }
}

/// The side is in check: it has a king, and a piece of the other side attacks its (lowest)
/// king square.
pub open spec fn in_check_spec(board: Board, side: Side) -> bool {
    let pos = board.positions;
    let kbb = pos.piece_bb(side, Piece::King);
    kbb != 0 && exists|t: int| 0 <= t < 64 && #[trigger] checks_square(pos, side.spec_flip(), t, u64_trailing_zeros(kbb) as int, occupied(pos))
}

impl Board {
    /// Sets each side's material to the sum of its pieces' values.
    pub fn recalculate_material(&mut self)
        requires
            old(self).positions.wf(),
        ensures
            final(self).positions == old(self).positions,
            final(self).stm == old(self).stm,
            final(self).castling_rights == old(self).castling_rights,
            final(self).enpassant_square == old(self).enpassant_square,
            final(self).halfmove_clock == old(self).halfmove_clock,
            final(self).fullmove_counter == old(self).fullmove_counter,
            final(self).hash == old(self).hash,
            final(self).material[0].mg == mat_mg(final(self).positions.mb(), Side::White, 64),
            final(self).material[0].eg == mat_eg(final(self).positions.mb(), Side::White, 64),
            final(self).material[1].mg == mat_mg(final(self).positions.mb(), Side::Black, 64),
            final(self).material[1].eg == mat_eg(final(self).positions.mb(), Side::Black, 64),
    {
        let mailbox = self.positions.mailbox();
        let mut w = Score::new(0, 0);
        let mut b = Score::new(0, 0);
        let mut sq: usize = 0;
        let ghost mb = self.positions.mb();
        proof {
            self.positions.lemma_mb_len();
        }
        while sq < 64
            invariant
                sq <= 64,
                mailbox@ == mb,
                mb.len() == 64,
                w.mg == mat_mg(mb, Side::White, sq as int),
                w.eg == mat_eg(mb, Side::White, sq as int),
                b.mg == mat_mg(mb, Side::Black, sq as int),
                b.eg == mat_eg(mb, Side::Black, sq as int),
            decreases 64 - sq,
        {
            proof {
                lemma_mat_bounds(mb, Side::White, sq as int);
                lemma_mat_bounds(mb, Side::Black, sq as int);
            }
            match mailbox[sq] {
                Some(info) => {
                    if info.side == Side::White {
                        w = w.plus(info.piece.score());
                    } else {
                        b = b.plus(info.piece.score());
                    }
                },
                None => {},
            }
            sq = sq + 1;
        }
        self.material = [w, b];
    }

    /// The board a FEN string describes, with its material and hash set.
    pub fn from_fen(fen: &str, keys: &ZobristKeys) -> (r: Board)
        requires
            fen_ok(fen@),
        ensures
            r.wf(),
            r.hash_ok(*keys),
            fen_board_fields(r, fen@),
    {
        let mut board = match parse_fen(fen) {
            Ok(b) => b,
            Err(_) => {
                return Board::new(keys);
            },
        };
        board.recalculate_material();
        board.hash = calculate_hash(&board, keys);
        board
    }

    /// The board a FEN string describes, or why the string does not read as one.
    pub fn try_from_fen(fen: &str, keys: &ZobristKeys) -> (r: Result<Board, FenError>)
        ensures
            r is Ok <==> fen_ok(fen@),
            r matches Ok(b) ==> b.wf() && b.hash_ok(*keys) && fen_board_fields(b, fen@),
            r matches Err(e) ==> e == fen_error(fen@),
    {
        match parse_fen(fen) {
            Ok(_) => Ok(Board::from_fen(fen, keys)),
            Err(e) => Err(e),
        }
    }

    /// The start position, when its FEN reads as it should.
    pub fn new(keys: &ZobristKeys) -> (r: Board)
        ensures
            r.wf(),
            r.hash_ok(*keys),
            fen_ok(START_FEN@) ==> fen_board_fields(r, START_FEN@),
    {
        let mut board = match parse_fen(START_FEN) {
            Ok(b) => b,
            Err(_) => Board {
                positions: BoardState::new(),
                stm: Side::White,
                castling_rights: CastlingRights(0),
                enpassant_square: None,
                halfmove_clock: 0,
                fullmove_counter: 1,
                material: [Score::new(0, 0), Score::new(0, 0)],
                hash: 0,
            },
        };
        board.recalculate_material();
        board.hash = calculate_hash(&board, keys);
        board
    }

    /// The board as a FEN string.
    pub fn to_fen(&self) -> (r: String)
        requires
            self.wf(),
        ensures
            r@ == fen_text(*self),
    {
        to_fen(self)
    }

    /// Adds the legal moves of the side to move: all of them, or only captures, promotions and
    /// checks when `forcing_only`.
    pub fn generate_legal_moves(&self, buffer: &mut MoveBuffer, forcing_only: bool)
        requires
            old(buffer).wf(),
            self.wf(),
            pawns_placed_ok(self.positions, self.stm),
        ensures
            final(buffer).wf(),
            grows_weak(*self, old(buffer)@, final(buffer)@),
            self.positions.piece_bb(self.stm, Piece::King) != 0 ==> board_grows(*self, old(buffer)@, final(buffer)@),
    {
        if !forcing_only {
            gen_legal::<AllMoves>(self, buffer);
        } else {
            gen_legal::<ForcingMoves>(self, buffer);
        }
    }

    /// A new buffer with the legal moves of the side to move.
    fn get_legal_moves(&self, captures_only: bool) -> (r: MoveBuffer)
        requires
            self.wf(),
            pawns_placed_ok(self.positions, self.stm),
        ensures
            r.wf(),
            grows_weak(*self, Seq::empty(), r@),
            self.positions.piece_bb(self.stm, Piece::King) != 0 ==> board_grows(*self, Seq::empty(), r@),
    {
        let mut buffer = MoveBuffer::new();
        self.generate_legal_moves(&mut buffer, captures_only);
        buffer
    }

    /// Adds the pseudo-legal moves of the side to move.
    pub fn generate_pseudo_legal_moves(&self, buffer: &mut MoveBuffer)
        requires
            old(buffer).wf(),
            self.wf(),
        ensures
            final(buffer).wf(),
            grows_by(old(buffer)@, final(buffer)@, self.positions, self.stm, self.castling_rights.0, self.enpassant_square),
    {
        gen_pseudo(&self.positions, self.stm, self.castling_rights, self.enpassant_square, buffer);
    }

    /// Passes the move to the other side: the en passant square goes, with its key.
    pub fn make_null_move(&mut self, keys: &ZobristKeys)
        requires
            old(self).wf(),
        ensures
            final(self).wf(),
            null_move_post(*old(self), *final(self), *keys),
    {
        match self.enpassant_square {
            Some(ep_square) => {
                self.hash = self.hash ^ keys.en_passant_file[ep_square.col()];
            },
            None => {},
        }
        self.enpassant_square = None;
        self.stm = self.stm.flip();
        self.hash = self.hash ^ keys.black_to_move;
    }

    /// The game phase: 24 less the phase weights of the pieces, scaled to 0..256 with
    /// rounding, as integer division gives it, and kept within 0..=256 when the board holds
    /// more material than the start position.
    pub fn game_phase(&self) -> (r: Phase)
        requires
            self.positions.wf(),
        ensures
            r.0 == phase_clamp(div_trunc((TOTAL_PHASE - phase_sum(self.positions.mb(), 64)) * ENDGAME_PHASE + TOTAL_PHASE / 2, TOTAL_PHASE as int)),
            0 <= r.0 <= ENDGAME_PHASE,
    {
        let mailbox = self.positions.mailbox();
        let ghost mb = self.positions.mb();
        let mut phase: i32 = TOTAL_PHASE;
        let mut sq: usize = 0;
        proof {
            self.positions.lemma_mb_len();
        }
        while sq < 64
            invariant
                sq <= 64,
                mailbox@ == mb,
                mb.len() == 64,
                phase == TOTAL_PHASE - phase_sum(mb, sq as int),
            decreases 64 - sq,
        {
            proof {
                lemma_phase_bounds(mb, sq as int);
            }
            match mailbox[sq] {
                Some(info) => {
                    phase = phase - info.piece.phase();
                },
                None => {},
            }
            sq = sq + 1;
        }
        proof {
            lemma_phase_bounds(mb, 64);
        }
        let scaled = (phase * ENDGAME_PHASE + (TOTAL_PHASE / 2)) / TOTAL_PHASE;
        if scaled < 0 {
            Phase(0)
        } else if scaled > ENDGAME_PHASE {
            Phase(ENDGAME_PHASE)
        } else {
            Phase(scaled)
        }
    }

    /// Whether `side` is in check.
    pub fn is_in_check(&self, side: Side) -> (r: bool)
        requires
            self.positions.wf(),
        ensures
            r == in_check_spec(*self, side),
    {
        let attack_data = calculate_attack_data(self, side);
        proof {
            crate::bitboard::lemma_nonzero_has_bit(attack_data.checker_mask.0);
            if attack_data.in_check {
                let t = choose|t: int| 0 <= t < 64 && bit_of(attack_data.checker_mask.0, t);
                assert(attack_data.checker_mask.has(t));
            }
            if in_check_spec(*self, side) {
                let kbb = self.positions.piece_bb(side, Piece::King);
                let t = choose|t: int| 0 <= t < 64 && #[trigger] checks_square(self.positions, side.spec_flip(), t, u64_trailing_zeros(kbb) as int, occupied(self.positions));
                assert(attack_data.checker_mask.has(t));
            }
        }
        attack_data.in_check
    }

    /// Whether `side` is in check and the side to move has no legal move.
    pub fn is_checkmate(&self, side: Side) -> (r: bool)
        requires
            self.wf(),
            pawns_placed_ok(self.positions, self.stm),
        ensures
            r ==> in_check_spec(*self, side),
            !in_check_spec(*self, side) ==> !r,
    {
        self.is_in_check(side) && self.get_legal_moves(false).is_empty()
    }

    /// Whether `side` is not in check and the side to move has no legal move.
    pub fn is_stalemate(&self, side: Side) -> (r: bool)
        requires
            self.wf(),
            pawns_placed_ok(self.positions, self.stm),
        ensures
            r ==> !in_check_spec(*self, side),
    {
        !self.is_in_check(side) && self.get_legal_moves(false).is_empty()
    }
}

/// Number of `side`'s pieces of kind `p`.
pub open spec fn piece_count(pos: BoardState, side: Side, p: Piece) -> nat {
    count_bits(pos.piece_bb(side, p), 64)
}

/// Number of `side`'s pieces.
pub open spec fn side_count(pos: BoardState, side: Side) -> nat {
    count_bits(pos.side_bb(side), 64)
}

/// The lowest bishop squares of both sides lie on squares of one colour.
pub open spec fn same_colored_spec(pos: BoardState) -> bool {
    let w = pos.piece_bb(Side::White, Piece::Bishop);
    let b = pos.piece_bb(Side::Black, Piece::Bishop);
    let ws = u64_trailing_zeros(w) as int;
    let bs = u64_trailing_zeros(b) as int;
    w != 0 && b != 0 && (ws / 8 + ws % 8) % 2 == (bs / 8 + bs % 8) % 2
}

/// The material left cannot mate: kings alone; king and bishop, or king and knight, against a
/// lone king; or each side with exactly one king and one bishop (whatever else stands).
pub open spec fn insufficient_spec(pos: BoardState) -> bool {
    let w = Side::White;
    let b = Side::Black;
    ||| side_count(pos, w) == 1 && side_count(pos, b) == 1
    ||| piece_count(pos, w, Piece::King) == 1 && piece_count(pos, w, Piece::Bishop) == 1 && side_count(pos, w) == 2
        && piece_count(pos, b, Piece::King) == 1 && side_count(pos, b) == 1
    ||| piece_count(pos, b, Piece::King) == 1 && piece_count(pos, b, Piece::Bishop) == 1 && side_count(pos, b) == 2
        && piece_count(pos, w, Piece::King) == 1 && side_count(pos, w) == 1
    ||| piece_count(pos, w, Piece::King) == 1 && piece_count(pos, w, Piece::Knight) == 1 && side_count(pos, w) == 2
        && piece_count(pos, b, Piece::King) == 1 && side_count(pos, b) == 1
    ||| piece_count(pos, b, Piece::King) == 1 && piece_count(pos, b, Piece::Knight) == 1 && side_count(pos, b) == 2
        && piece_count(pos, w, Piece::King) == 1 && side_count(pos, w) == 1
    ||| piece_count(pos, w, Piece::King) == 1 && piece_count(pos, w, Piece::Bishop) == 1 && piece_count(pos, b, Piece::King)
        == 1 && piece_count(pos, b, Piece::Bishop) == 1
}

/// Whether material is insufficient does not depend on which side holds it: two placements
/// whose pieces are counted alike with the colours swapped are either both drawn by lack of
/// material or both not.
pub proof fn lemma_insufficient_colour_blind(p: BoardState, q: BoardState)
    requires
        forall|s: Side, k: Piece| #[trigger] piece_count(q, s, k) == piece_count(p, s.spec_flip(), k),
        forall|s: Side| #[trigger] side_count(q, s) == side_count(p, s.spec_flip()),
    ensures
        insufficient_spec(p) == insufficient_spec(q),
{
    let w = Side::White;
    let b = Side::Black;
    assert(side_count(q, w) == side_count(p, b));
    assert(side_count(q, b) == side_count(p, w));
    assert(piece_count(q, w, Piece::King) == piece_count(p, b, Piece::King));
    assert(piece_count(q, b, Piece::King) == piece_count(p, w, Piece::King));
    assert(piece_count(q, w, Piece::Bishop) == piece_count(p, b, Piece::Bishop));
    assert(piece_count(q, b, Piece::Bishop) == piece_count(p, w, Piece::Bishop));
    assert(piece_count(q, w, Piece::Knight) == piece_count(p, b, Piece::Knight));
    assert(piece_count(q, b, Piece::Knight) == piece_count(p, w, Piece::Knight));
}

impl Board {
    /// Whether the lowest white bishop and the lowest black bishop stand on squares of one
    /// colour; false when a side has no bishop.
    pub fn same_colored_bishops(&self) -> (r: bool)
        ensures
            r == same_colored_spec(self.positions),
    {
        let white_bishop = self.positions.get_piece_bb(Side::White, Piece::Bishop);
        let black_bishop = self.positions.get_piece_bb(Side::Black, Piece::Bishop);
        match (white_bishop.lsb(), black_bishop.lsb()) {
            (Some(white_sq), Some(black_sq)) => {
                let (white_rank, white_file) = Square(white_sq as usize).coords();
                let (black_rank, black_file) = Square(black_sq as usize).coords();
                let a = (white_file + white_rank) % 2;
                let b = (black_file + black_rank) % 2;
                a == b
            },
            _ => false,
        }
    }

    /// Whether neither side has material enough to mate, by the cases of
    /// [`insufficient_spec`].
    pub fn is_insufficient_material(&self) -> (r: bool)
        ensures
            r == insufficient_spec(self.positions),
    {
        let pos = &self.positions;
        let white_pieces = pos.get_side_bb(Side::White).pop_count();
        let black_pieces = pos.get_side_bb(Side::Black).pop_count();
        let wk = pos.get_piece_bb(Side::White, Piece::King).pop_count();
        let wb = pos.get_piece_bb(Side::White, Piece::Bishop).pop_count();
        let wn = pos.get_piece_bb(Side::White, Piece::Knight).pop_count();
        let bk = pos.get_piece_bb(Side::Black, Piece::King).pop_count();
        let bb = pos.get_piece_bb(Side::Black, Piece::Bishop).pop_count();
        let bn = pos.get_piece_bb(Side::Black, Piece::Knight).pop_count();
        if white_pieces == 1 && black_pieces == 1 {
            return true;
        }
        if (wk == 1 && wb == 1 && white_pieces == 2 && bk == 1 && black_pieces == 1) || (bk == 1 && bb == 1
            && black_pieces == 2 && wk == 1 && white_pieces == 1) {
            return true;
        }
        if (wk == 1 && wn == 1 && white_pieces == 2 && bk == 1 && black_pieces == 1) || (bk == 1 && bn == 1
            && black_pieces == 2 && wk == 1 && white_pieces == 1) {
            return true;
        }
        if wk == 1 && wb == 1 && bk == 1 && bb == 1 && self.same_colored_bishops() {
            return true;
        }
        if wk == 1 && wb == 1 && bk == 1 && bb == 1 && !self.same_colored_bishops() {
            return true;
        }
        false
    }

    /// A draw: stalemate of the side to move, fifty moves without capture or pawn move, or
    /// material too thin to mate.
    pub fn is_draw(&self) -> (r: bool)
        requires
            self.wf(),
            pawns_placed_ok(self.positions, self.stm),
        ensures
            self.halfmove_clock >= 100 ==> r,
            insufficient_spec(self.positions) ==> r,
            r ==> (self.halfmove_clock >= 100 || insufficient_spec(self.positions) || !in_check_spec(*self, self.stm)),
    {
        self.is_stalemate(self.stm) || self.halfmove_clock >= 100 || self.is_insufficient_material()
    }
}

impl Board {
    /// Makes move `m` when it is among the legal moves of the side to move, and refuses it,
    /// leaving the board as it is, when it is not.
    pub fn try_move(&mut self, m: Move, keys: &ZobristKeys) -> (r: Result<(), BoardError>)
        requires
            old(self).wf(),
            pawns_placed_ok(old(self).positions, old(self).stm),
            old(self).halfmove_clock < 255 || (old(self).positions.mb()[mv_from(m.0)] matches Some(i) && i.piece
                == Piece::Pawn) || m.0 & CAPTURE != 0,
            old(self).stm == Side::Black ==> old(self).fullmove_counter < 255,
        ensures
            r is Ok ==> board_fits(*old(self), m.0) || plain_flag(m.0),
            r is Ok ==> exists|info: MoveInfo| make_post(*old(self), m.0, info, *final(self), *keys),
            r is Err && make_ok(old(self).positions.mb(), old(self).stm, m.0) ==> *final(self) == *old(self),
    {
        let ghost b = *self;
        let mut legal_moves = MoveBuffer::new();
        self.generate_legal_moves(&mut legal_moves, false);
        if legal_moves.contains(&m) {
            proof {
                let i = choose|i: int| 0 <= i < legal_moves@.len() && legal_moves@[i] == m;
                assert(board_fits(b, legal_moves@[i].0) || plain_flag(legal_moves@[i].0));
                crate::move_info::lemma_move_fields_bounded(m.0);
                if mv_flags(m.0) == DOUBLE_PAWN || mv_flags(m.0) == EN_PASSANT {
                    assert(move_fits(b.positions, b.stm, b.castling_rights.0, b.enpassant_square, m.0));
                }
            }
            match self.make_move(m, keys) {
                Ok(info) => {
                    proof {
                        assert(make_post(b, m.0, info, *self, *keys));
                    }
                    Ok(())
                },
                Err(e) => Err(e),
            }
        } else {
            Err(BoardError::IllegalMove)
        }
    }
}

} // verus!
