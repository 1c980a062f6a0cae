use vstd::prelude::*;
use vstd::std_specs::bits::u64_trailing_zeros;
use crate::attack_data::{AttackData, calculate_attack_data, occupied, ortho_bb, diag_bb};
use crate::board::Board;
use crate::direction::{Direction, spec_get_dir, dir_index, NORTH, SOUTH};
use crate::bitboard::{BitBoard, bit_of, group_bits};
use crate::board_state::BoardState;
use crate::components::{
    CastlingRights, Piece, PieceInfo, Side, Square, WHITE_00, WHITE_000, BLACK_00, BLACK_000,
};
use crate::move_buffer::{MoveBuffer, MAX_MOVES};
use crate::move_info::{
    Move, mv_from, mv_to, mv_flags, QUIET, DOUBLE_PAWN, KING_CASTLE, QUEEN_CASTLE, CAPTURE, EN_PASSANT,
    PROMO_N, PROMO_B, PROMO_R, PROMO_Q, PROMO_NC, PROMO_BC, PROMO_RC, PROMO_QC, flag_promo_piece,
};
use crate::move_tables::{
    MoveTables, rook_set, bishop_set, knight_target, king_target, pawn_attack_target, pawn_push_target,
    knight_attacks, king_attacks, pawn_attacks, rook_attacks, bishop_attacks, dir_slide,
};

verus! {

broadcast use group_bits;

/// A piece kind other than a pawn on `from` reaches `to`, with `occ` the occupied squares.
pub open spec fn piece_reaches(piece: Piece, from: int, to: int, occ: u64) -> bool {
    match piece {
        Piece::Knight => knight_target(from, to),
        Piece::King => king_target(from, to),
        Piece::Bishop => bishop_set(from, occ).contains(to),
        Piece::Rook => rook_set(from, occ).contains(to),
        Piece::Queen => rook_set(from, occ).contains(to) || bishop_set(from, occ).contains(to),
        Piece::Pawn => false,
    }
}

/// The rank on which pawns of `side` promote.
pub open spec fn promo_rank(side: Side) -> int {
    if side == Side::White {
        7
    } else {
        0
    }
}

/// One of the four promotion flags, capturing or not.
pub open spec fn is_promo_flag(fl: u16, cap: bool) -> bool {
    if cap {
        fl == PROMO_QC || fl == PROMO_RC || fl == PROMO_BC || fl == PROMO_NC
    } else {
        fl == PROMO_Q || fl == PROMO_R || fl == PROMO_B || fl == PROMO_N
    }
}

/// A pawn move of `stm` from `from` to `to` with flag `fl`: a capture on an attacked square,
/// or a push onto empty squares, promoting on the last rank and flagged as a double push
/// when it crosses two ranks.
pub open spec fn pawn_step_fits(stm: Side, from: int, to: int, occ: u64, cap: bool, fl: u16) -> bool {
    if cap {
        &&& pawn_attack_target(from, to, stm)
        &&& if to / 8 == promo_rank(stm) {
            is_promo_flag(fl, true)
        } else {
            fl == CAPTURE
        }
    } else {
        &&& pawn_push_target(from, to, stm, occ)
        &&& if to / 8 == promo_rank(stm) {
            is_promo_flag(fl, false)
        } else if to / 8 - from / 8 == 2 || from / 8 - to / 8 == 2 {
            fl == DOUBLE_PAWN
        } else {
            fl == QUIET
        }
    }
}

/// A castling move of `stm` with flag `fl`: the king's squares, the right for that wing, and
/// empty squares between king and rook.
pub open spec fn castle_fits(mb: Seq<Option<PieceInfo>>, stm: Side, castling: u8, fl: u16, from: int, to: int) -> bool {
    if stm == Side::White {
        if fl == KING_CASTLE {
            from == 4 && to == 6 && castling & WHITE_00 != 0 && mb[5] is None && mb[6] is None
        } else {
            from == 4 && to == 2 && castling & WHITE_000 != 0 && mb[1] is None && mb[2] is None && mb[3] is None
        }
    } else {
        if fl == KING_CASTLE {
            from == 60 && to == 62 && castling & BLACK_00 != 0 && mb[61] is None && mb[62] is None
        } else {
            from == 60 && to == 58 && castling & BLACK_000 != 0 && mb[57] is None && mb[58] is None && mb[59]
                is None
        }
    }
}

/// Move `m` is a move of `stm` by the rules of how pieces move (its own king's safety aside):
/// castling as above; en passant by a pawn of `stm` onto the en passant square it attacks;
/// otherwise a piece of `stm` moving to a square without a piece of its own, as its kind moves,
/// flagged as a capture exactly when an enemy piece stands there.
pub open spec fn move_fits(pos: BoardState, stm: Side, castling: u8, ep: Option<Square>, m: u16) -> bool {
    let mb = pos.mb();
    let from = mv_from(m);
    let to = mv_to(m);
    let fl = mv_flags(m);
    if fl == KING_CASTLE || fl == QUEEN_CASTLE {
        castle_fits(mb, stm, castling, fl, from, to)
    } else if fl == EN_PASSANT {
        &&& mb[from] == Some(PieceInfo { piece: Piece::Pawn, side: stm })
        &&& ep == Some(Square(to as usize))
        &&& pawn_attack_target(from, to, stm)
    } else {
        &&& mb[from] is Some
        &&& mb[from]->0.side == stm
        &&& (mb[to] is Some ==> mb[to]->0.side == stm.spec_flip())
        &&& if mb[from]->0.piece == Piece::Pawn {
            pawn_step_fits(stm, from, to, occupied(pos), mb[to] is Some, fl)
        } else {
            piece_reaches(mb[from]->0.piece, from, to, occupied(pos)) && fl == (if mb[to] is Some {
                CAPTURE
            } else {
                QUIET
            })
        }
    }
}

/// `b` is `a` followed by moves that fit the position.
pub open spec fn grows_by(a: Seq<Move>, b: Seq<Move>, pos: BoardState, stm: Side, castling: u8, ep: Option<Square>) -> bool {
    &&& a.len() <= b.len()
    &&& b.subrange(0, a.len() as int) == a
    &&& forall|i: int| a.len() <= i < b.len() ==> #[trigger] move_fits(pos, stm, castling, ep, b[i].0)
}

pub proof fn lemma_grows_refl(a: Seq<Move>, pos: BoardState, stm: Side, castling: u8, ep: Option<Square>)
    ensures
        grows_by(a, a, pos, stm, castling, ep),
{
    assert(a.subrange(0, a.len() as int) =~= a);
}

pub proof fn lemma_grows_trans(a: Seq<Move>, b: Seq<Move>, c: Seq<Move>, pos: BoardState, stm: Side, castling: u8, ep: Option<Square>)
    requires
        grows_by(a, b, pos, stm, castling, ep),
        grows_by(b, c, pos, stm, castling, ep),
    ensures
        grows_by(a, c, pos, stm, castling, ep),
{
    assert(c.subrange(0, a.len() as int) =~= b.subrange(0, a.len() as int));
    assert forall|i: int| a.len() <= i < c.len() implies #[trigger] move_fits(pos, stm, castling, ep, c[i].0) by {
        if i < b.len() {
            assert(c[i] == b[i]);
            assert(move_fits(pos, stm, castling, ep, b[i].0));
        }
    }
}

/// Adds `m` when the buffer has room; a full buffer keeps what it holds.
fn add_move(moves: &mut MoveBuffer, m: Move, Ghost(pos): Ghost<BoardState>, stm: Side, Ghost(castling): Ghost<u8>, Ghost(ep): Ghost<Option<Square>>)
    requires
        old(moves).wf(),
        move_fits(pos, stm, castling, ep, m.0),
    ensures
        final(moves).wf(),
        grows_by(old(moves)@, final(moves)@, pos, stm, castling, ep),
{
    let ghost a = moves@;
    proof {
        lemma_grows_refl(a, pos, stm, castling, ep);
    }
    if moves.len() < MAX_MOVES {
        moves.push(m);
        proof {
            assert(moves@.subrange(0, a.len() as int) =~= a);
        }
    }
}

/// Adds a move from `from` to every square of `targets`, flagged as a capture where an enemy
/// piece stands.
fn push_piece_moves(
    moves: &mut MoveBuffer,
    pos: &BoardState,
    side: Side,
    from: usize,
    targets: u64,
    Ghost(castling): Ghost<u8>,
    Ghost(ep): Ghost<Option<Square>>,
)
    requires
        old(moves).wf(),
        pos.wf(),
        from < 64,
        pos.mb()[from as int] is Some,
        pos.mb()[from as int]->0.side == side,
        pos.mb()[from as int]->0.piece != Piece::Pawn,
        forall|t: int| 0 <= t < 64 && #[trigger] bit_of(targets, t) ==> piece_reaches(pos.mb()[from as int]->0.piece, from as int, t, occupied(*pos))
            && !bit_of(pos.side_bb(side), t),
    ensures
        final(moves).wf(),
        grows_by(old(moves)@, final(moves)@, *pos, side, castling, ep),
{
    let ghost a = moves@;
    proof {
        lemma_grows_refl(a, *pos, side, castling, ep);
    }
    let enemy = pos.get_side_bb(side.flip());
    let mut rest = BitBoard(targets);
    while rest.0 != 0
        invariant
            moves.wf(),
            pos.wf(),
            from < 64,
            pos.mb()[from as int] is Some,
            pos.mb()[from as int]->0.side == side,
            pos.mb()[from as int]->0.piece != Piece::Pawn,
            enemy.0 == pos.side_bb(side.spec_flip()),
            forall|t: int| 0 <= t < 64 && #[trigger] bit_of(rest.0, t) ==> bit_of(targets, t),
            forall|t: int| 0 <= t < 64 && #[trigger] bit_of(targets, t) ==> piece_reaches(pos.mb()[from as int]->0.piece, from as int, t, occupied(*pos))
                && !bit_of(pos.side_bb(side), t),
            grows_by(a, moves@, *pos, side, castling, ep),
        decreases rest.0,
    {
        let to = rest.pop_lsb() as usize;
        let is_capture = enemy.contains_square(to);
        let flag = if is_capture { CAPTURE } else { QUIET };
        let m = Move::new(from as u8, to as u8, flag);
        proof {
            pos.lemma_mb_len();
            assert(bit_of(targets, to as int));
            assert(bit_of(pos.side_bb(side.spec_flip()), to as int) <==> (pos.mb()[to as int] is Some && pos.mb()[to as int]->0.side == side.spec_flip()));
            assert(!bit_of(pos.side_bb(side), to as int));
            assert(pos.mb()[to as int] is Some ==> pos.mb()[to as int]->0.side != side);
            assert(move_fits(*pos, side, castling, ep, m.0));
        }
        let ghost b = moves@;
        add_move(moves, m, Ghost(*pos), side, Ghost(castling), Ghost(ep));
        proof {
            lemma_grows_trans(a, b, moves@, *pos, side, castling, ep);
        }
    }
}

proof fn lemma_occ(pos: BoardState, side: Side)
    ensures
        pos.side_bb(side) | pos.side_bb(side.spec_flip()) == occupied(pos),
{
    let a = pos.side_bb(Side::White);
    let b = pos.side_bb(Side::Black);
    assert(b | a == a | b) by (bit_vector);
}

/// Squares a piece of kind `piece` (not a pawn) of `side` on `from` may move to: where it
/// reaches, without its own pieces.
pub(crate) fn piece_targets(pos: &BoardState, side: Side, piece: Piece, from: usize) -> (r: u64)
    requires
        pos.wf(),
        from < 64,
        piece != Piece::Pawn,
    ensures
        forall|t: int| 0 <= t < 64 ==> (#[trigger] bit_of(r, t) <==> piece_reaches(piece, from as int, t, occupied(*pos))
            && !bit_of(pos.side_bb(side), t)),
{
    let ally = *pos.get_side_bb(side);
    let enemy = *pos.get_side_bb(side.flip());
    let tables = MoveTables::new();
    proof {
        lemma_occ(*pos, side);
    }
    match piece {
        Piece::Knight => {
            let k = knight_attacks(from);
            proof {
                assert forall|t: int| 0 <= t < 64 implies #[trigger] bit_of(k.0, t) == knight_target(from as int, t) by {
                    assert(k.has(t) == knight_target(from as int, t));
                }
            }
            k.0 & !ally.0
        },
        Piece::King => {
            let k = king_attacks(from);
            proof {
                assert forall|t: int| 0 <= t < 64 implies #[trigger] bit_of(k.0, t) == king_target(from as int, t) by {
                    assert(k.has(t) == king_target(from as int, t));
                }
            }
            k.0 & !ally.0
        },
        Piece::Bishop => tables.get_bishop_moves(from, ally, enemy).0,
        Piece::Rook => tables.get_rook_moves(from, ally, enemy).0,
        _ => tables.get_queen_moves(from, ally, enemy).0,
    }
}

/// Adds the moves of every piece of kind `piece` (not a pawn) of `side`.
fn gen_piece_kind_moves(
    state: &BoardState,
    side: Side,
    piece: Piece,
    move_list: &mut MoveBuffer,
    Ghost(castling): Ghost<u8>,
    Ghost(ep): Ghost<Option<Square>>,
)
    requires
        old(move_list).wf(),
        state.wf(),
        piece != Piece::Pawn,
    ensures
        final(move_list).wf(),
        grows_by(old(move_list)@, final(move_list)@, *state, side, castling, ep),
{
    let ghost a = move_list@;
    proof {
        lemma_grows_refl(a, *state, side, castling, ep);
    }
    let mut pieces_bb = *state.get_piece_bb(side, piece);
    while pieces_bb.0 != 0
        invariant
            move_list.wf(),
            state.wf(),
            piece != Piece::Pawn,
            forall|t: int| 0 <= t < 64 && #[trigger] bit_of(pieces_bb.0, t) ==> bit_of(state.piece_bb(side, piece), t),
            grows_by(a, move_list@, *state, side, castling, ep),
        decreases pieces_bb.0,
    {
        let from = pieces_bb.pop_lsb() as usize;
        let targets = piece_targets(state, side, piece, from);
        proof {
            assert(bit_of(state.piece_bb(side, piece), from as int));
        }
        let ghost b = move_list@;
        push_piece_moves(move_list, state, side, from, targets, Ghost(castling), Ghost(ep));
        proof {
            lemma_grows_trans(a, b, move_list@, *state, side, castling, ep);
        }
    }
}

/// The pawn of `side` on `from` may promote on `to`: by a capture of an enemy piece or by a
/// push onto an empty square.
pub open spec fn promo_ok(pos: BoardState, side: Side, from: int, to: int, cap: bool) -> bool {
    &&& 0 <= from < 64
    &&& 0 <= to < 64
    &&& pos.mb()[from] == Some(PieceInfo { piece: Piece::Pawn, side })
    &&& to / 8 == promo_rank(side)
    &&& if cap {
        pawn_attack_target(from, to, side) && pos.mb()[to] is Some && pos.mb()[to]->0.side == side.spec_flip()
    } else {
        pawn_push_target(from, to, side, occupied(pos)) && pos.mb()[to] is None
    }
}

/// Adds the four promotions from `from` to `to`, queen first.
fn add_promo_moves(
    from: u8,
    to: u8,
    is_capture: bool,
    moves: &mut MoveBuffer,
    Ghost(pos): Ghost<BoardState>,
    side: Side,
    Ghost(castling): Ghost<u8>,
    Ghost(ep): Ghost<Option<Square>>,
)
    requires
        old(moves).wf(),
        promo_ok(pos, side, from as int, to as int, is_capture),
    ensures
        final(moves).wf(),
        grows_by(old(moves)@, final(moves)@, pos, side, castling, ep),
{
    let ghost a = moves@;
    let flags: [u16; 4] = if is_capture {
        [PROMO_QC, PROMO_RC, PROMO_BC, PROMO_NC]
    } else {
        [PROMO_Q, PROMO_R, PROMO_B, PROMO_N]
    };
    proof {
        lemma_grows_refl(a, pos, side, castling, ep);
    }
    let mut i: usize = 0;
    while i < 4
        invariant
            moves.wf(),
            promo_ok(pos, side, from as int, to as int, is_capture),
            forall|j: int| 0 <= j < 4 ==> #[trigger] is_promo_flag(flags@[j], is_capture) && flags@[j] % 4096 == 0,
            grows_by(a, moves@, pos, side, castling, ep),
        decreases 4 - i,
    {
        let m = Move::new(from, to, flags[i]);
        proof {
            assert(is_promo_flag(flags@[i as int], is_capture) && flags@[i as int] % 4096 == 0);
            assert(move_fits(pos, side, castling, ep, m.0));
        }
        let ghost b = moves@;
        add_move(moves, m, Ghost(pos), side, Ghost(castling), Ghost(ep));
        proof {
            lemma_grows_trans(a, b, moves@, pos, side, castling, ep);
        }
        i = i + 1;
    }
}

/// Adds the pushes and captures of the pawns of `side` (en passant aside).
fn gen_pawn_moves(
    state: &BoardState,
    side: Side,
    move_list: &mut MoveBuffer,
    Ghost(castling): Ghost<u8>,
    Ghost(ep): Ghost<Option<Square>>,
)
    requires
        old(move_list).wf(),
        state.wf(),
    ensures
        final(move_list).wf(),
        grows_by(old(move_list)@, final(move_list)@, *state, side, castling, ep),
{
    let ghost a = move_list@;
    proof {
        lemma_grows_refl(a, *state, side, castling, ep);
        lemma_occ(*state, side);
        state.lemma_mb_len();
    }
    let ally = *state.get_side_bb(side);
    let enemy = *state.get_side_bb(side.flip());
    let tables = MoveTables::new();
    let mut pawns_bb = *state.get_piece_bb(side, Piece::Pawn);
    while pawns_bb.0 != 0
        invariant
            move_list.wf(),
            state.wf(),
            state.mb().len() == 64,
            ally.0 == state.side_bb(side),
            enemy.0 == state.side_bb(side.spec_flip()),
            ally.0 | enemy.0 == occupied(*state),
            forall|t: int| 0 <= t < 64 && #[trigger] bit_of(pawns_bb.0, t) ==> bit_of(state.piece_bb(side, Piece::Pawn), t),
            grows_by(a, move_list@, *state, side, castling, ep),
        decreases pawns_bb.0,
    {
        let from = pawns_bb.pop_lsb() as usize;
        proof {
            assert(bit_of(state.piece_bb(side, Piece::Pawn), from as int));
        }
        let mut push_bb = tables.get_pawn_pushes(from, side, ally, enemy);
        proof {
            assert forall|t: int| 0 <= t < 64 && #[trigger] bit_of(push_bb.0, t) implies pawn_push_target(from as int, t, side, occupied(*state)) by {
                assert(push_bb.has(t));
            }
        }
        while push_bb.0 != 0
            invariant
                move_list.wf(),
                state.wf(),
                state.mb().len() == 64,
                from < 64,
                state.mb()[from as int] == Some(PieceInfo { piece: Piece::Pawn, side }),
                ally.0 | enemy.0 == occupied(*state),
                forall|t: int| 0 <= t < 64 && #[trigger] bit_of(push_bb.0, t) ==> pawn_push_target(from as int, t, side, occupied(*state)),
                grows_by(a, move_list@, *state, side, castling, ep),
            decreases push_bb.0,
        {
            let to = push_bb.pop_lsb() as usize;
            let to_rank = to / 8;
            let from_rank = from / 8;
            let is_promotion = match side {
                Side::White => to_rank == 7,
                Side::Black => to_rank == 0,
            };
            let is_double = match side {
                Side::White => from_rank == 1 && to_rank == 3,
                Side::Black => from_rank == 6 && to_rank == 4,
            };
            proof {
                assert(pawn_push_target(from as int, to as int, side, occupied(*state)));
                assert(!bit_of(occupied(*state), to as int));
                assert(state.mb()[to as int] is None) by {
                    if state.mb()[to as int] is Some {
                        let sd = state.mb()[to as int]->0.side;
                        assert(bit_of(state.side_bb(sd), to as int));
                        lemma_occ(*state, sd);
                    }
                }
            }
            let ghost b = move_list@;
            if is_promotion {
                add_promo_moves(from as u8, to as u8, false, move_list, Ghost(*state), side, Ghost(castling), Ghost(ep));
            } else if is_double {
                let m = Move::new(from as u8, to as u8, DOUBLE_PAWN);
                add_move(move_list, m, Ghost(*state), side, Ghost(castling), Ghost(ep));
            } else {
                let m = Move::new(from as u8, to as u8, QUIET);
                add_move(move_list, m, Ghost(*state), side, Ghost(castling), Ghost(ep));
            }
            proof {
                lemma_grows_trans(a, b, move_list@, *state, side, castling, ep);
            }
        }
        let attacks = pawn_attacks(from, side);
        let mut attack_bb = BitBoard(attacks.0 & enemy.0);
        while attack_bb.0 != 0
            invariant
                move_list.wf(),
                state.wf(),
                state.mb().len() == 64,
                from < 64,
                state.mb()[from as int] == Some(PieceInfo { piece: Piece::Pawn, side }),
                enemy.0 == state.side_bb(side.spec_flip()),
                forall|t: int| 0 <= t < 64 && #[trigger] bit_of(attack_bb.0, t) ==> attacks.has(t) && bit_of(enemy.0, t),
                forall|t: int| 0 <= t < 64 ==> (#[trigger] attacks.has(t) <==> pawn_attack_target(from as int, t, side)),
                grows_by(a, move_list@, *state, side, castling, ep),
            decreases attack_bb.0,
        {
            let to = attack_bb.pop_lsb() as usize;
            let to_rank = to / 8;
            let is_promotion = match side {
                Side::White => to_rank == 7,
                Side::Black => to_rank == 0,
            };
            proof {
                assert(attacks.has(to as int) && bit_of(enemy.0, to as int));
            }
            let ghost b = move_list@;
            if is_promotion {
                add_promo_moves(from as u8, to as u8, true, move_list, Ghost(*state), side, Ghost(castling), Ghost(ep));
            } else {
                let m = Move::new(from as u8, to as u8, CAPTURE);
                add_move(move_list, m, Ghost(*state), side, Ghost(castling), Ghost(ep));
            }
            proof {
                lemma_grows_trans(a, b, move_list@, *state, side, castling, ep);
            }
        }
    }
}

/// Adds the knight moves of `side`.
fn gen_knight_moves(state: &BoardState, side: Side, move_list: &mut MoveBuffer, Ghost(castling): Ghost<u8>, Ghost(ep): Ghost<Option<Square>>)
    requires
        old(move_list).wf(),
        state.wf(),
    ensures
        final(move_list).wf(),
        grows_by(old(move_list)@, final(move_list)@, *state, side, castling, ep),
{
    gen_piece_kind_moves(state, side, Piece::Knight, move_list, Ghost(castling), Ghost(ep));
}

/// Adds the king moves of `side`, castling aside.
fn gen_king_moves(state: &BoardState, side: Side, move_list: &mut MoveBuffer, Ghost(castling): Ghost<u8>, Ghost(ep): Ghost<Option<Square>>)
    requires
        old(move_list).wf(),
        state.wf(),
    ensures
        final(move_list).wf(),
        grows_by(old(move_list)@, final(move_list)@, *state, side, castling, ep),
{
    gen_piece_kind_moves(state, side, Piece::King, move_list, Ghost(castling), Ghost(ep));
}

/// Adds the bishop moves of `side`.
fn gen_bishop_moves(state: &BoardState, side: Side, move_list: &mut MoveBuffer, Ghost(castling): Ghost<u8>, Ghost(ep): Ghost<Option<Square>>)
    requires
        old(move_list).wf(),
        state.wf(),
    ensures
        final(move_list).wf(),
        grows_by(old(move_list)@, final(move_list)@, *state, side, castling, ep),
{
    gen_piece_kind_moves(state, side, Piece::Bishop, move_list, Ghost(castling), Ghost(ep));
}

/// Adds the rook moves of `side`.
fn gen_rook_moves(state: &BoardState, side: Side, move_list: &mut MoveBuffer, Ghost(castling): Ghost<u8>, Ghost(ep): Ghost<Option<Square>>)
    requires
        old(move_list).wf(),
        state.wf(),
    ensures
        final(move_list).wf(),
        grows_by(old(move_list)@, final(move_list)@, *state, side, castling, ep),
{
    gen_piece_kind_moves(state, side, Piece::Rook, move_list, Ghost(castling), Ghost(ep));
}

/// Adds the queen moves of `side`.
fn gen_queen_moves(state: &BoardState, side: Side, move_list: &mut MoveBuffer, Ghost(castling): Ghost<u8>, Ghost(ep): Ghost<Option<Square>>)
    requires
        old(move_list).wf(),
        state.wf(),
    ensures
        final(move_list).wf(),
        grows_by(old(move_list)@, final(move_list)@, *state, side, castling, ep),
{
    gen_piece_kind_moves(state, side, Piece::Queen, move_list, Ghost(castling), Ghost(ep));
}

/// Adds the pawn moves of `side`, with the en passant captures onto `en_passant_square`.
fn gen_pawn_moves_with_ep(
    state: &BoardState,
    side: Side,
    en_passant_square: Option<Square>,
    move_list: &mut MoveBuffer,
    Ghost(castling): Ghost<u8>,
)
    requires
        old(move_list).wf(),
        state.wf(),
        en_passant_square matches Some(sq) ==> sq.0 < 64,
    ensures
        final(move_list).wf(),
        grows_by(old(move_list)@, final(move_list)@, *state, side, castling, en_passant_square),
{
    let ghost a = move_list@;
    gen_pawn_moves(state, side, move_list, Ghost(castling), Ghost(en_passant_square));
    match en_passant_square {
        Some(ep_square) => {
            let mut pawns_bb = *state.get_piece_bb(side, Piece::Pawn);
            while pawns_bb.0 != 0
                invariant
                    move_list.wf(),
                    state.wf(),
                    en_passant_square == Some(ep_square),
                    ep_square.0 < 64,
                    forall|t: int| 0 <= t < 64 && #[trigger] bit_of(pawns_bb.0, t) ==> bit_of(state.piece_bb(side, Piece::Pawn), t),
                    grows_by(a, move_list@, *state, side, castling, en_passant_square),
                decreases pawns_bb.0,
            {
                let from = pawns_bb.pop_lsb() as usize;
                let attacks = pawn_attacks(from, side);
                if attacks.contains_square(ep_square.index()) {
                    let m = Move::new(from as u8, ep_square.index() as u8, EN_PASSANT);
                    proof {
                        assert(bit_of(state.piece_bb(side, Piece::Pawn), from as int));
                        assert(move_fits(*state, side, castling, en_passant_square, m.0));
                    }
                    let ghost b = move_list@;
                    add_move(move_list, m, Ghost(*state), side, Ghost(castling), Ghost(en_passant_square));
                    proof {
                        lemma_grows_trans(a, b, move_list@, *state, side, castling, en_passant_square);
                    }
                }
            }
        },
        None => {},
    }
}

/// Whether square `sq` is empty, read from the occupied squares `all`.
fn is_empty_sq(state: &BoardState, all: BitBoard, sq: usize) -> (r: bool)
    requires
        state.wf(),
        all.0 == occupied(*state),
        sq < 64,
    ensures
        r == (state.mb()[sq as int] is None),
{
    let r = !all.contains_square(sq);
    proof {
        if state.mb()[sq as int] is Some {
            let sd = state.mb()[sq as int]->0.side;
            assert(bit_of(state.side_bb(sd), sq as int));
        }
    }
    r
}

/// Adds the king moves of `side` with the castling moves its rights and the empty squares allow,
/// when its king stands on its home square.
fn gen_king_moves_with_castling(
    state: &BoardState,
    side: Side,
    castling_rights: CastlingRights,
    move_list: &mut MoveBuffer,
    Ghost(ep): Ghost<Option<Square>>,
)
    requires
        old(move_list).wf(),
        state.wf(),
    ensures
        final(move_list).wf(),
        grows_by(old(move_list)@, final(move_list)@, *state, side, castling_rights.0, ep),
{
    let ghost a = move_list@;
    let ghost c = castling_rights.0;
    gen_king_moves(state, side, move_list, Ghost(c), Ghost(ep));
    let king_bb = state.get_piece_bb(side, Piece::King);
    proof {
        lemma_occ(*state, side);
    }
    match king_bb.lsb() {
        Some(king_pos) => {
            let king_sq = king_pos as usize;
            let all = state.get_side_bb(side).or(*state.get_side_bb(side.flip()));
            match side {
                Side::White => {
                    if king_sq == 4 {
                        if castling_rights.allows(CastlingRights(WHITE_00)) && is_empty_sq(state, all, 5) && is_empty_sq(state, all, 6) {
                            let m = Move::new(4, 6, KING_CASTLE);
                            let ghost b = move_list@;
                            add_move(move_list, m, Ghost(*state), side, Ghost(c), Ghost(ep));
                            proof {
                                lemma_grows_trans(a, b, move_list@, *state, side, c, ep);
                            }
                        }
                        if castling_rights.allows(CastlingRights(WHITE_000)) && is_empty_sq(state, all, 1) && is_empty_sq(state, all, 2)
                            && is_empty_sq(state, all, 3) {
                            let m = Move::new(4, 2, QUEEN_CASTLE);
                            let ghost b = move_list@;
                            add_move(move_list, m, Ghost(*state), side, Ghost(c), Ghost(ep));
                            proof {
                                lemma_grows_trans(a, b, move_list@, *state, side, c, ep);
                            }
                        }
                    }
                },
                Side::Black => {
                    if king_sq == 60 {
                        if castling_rights.allows(CastlingRights(BLACK_00)) && is_empty_sq(state, all, 61) && is_empty_sq(state, all, 62) {
                            let m = Move::new(60, 62, KING_CASTLE);
                            let ghost b = move_list@;
                            add_move(move_list, m, Ghost(*state), side, Ghost(c), Ghost(ep));
                            proof {
                                lemma_grows_trans(a, b, move_list@, *state, side, c, ep);
                            }
                        }
                        if castling_rights.allows(CastlingRights(BLACK_000)) && is_empty_sq(state, all, 57) && is_empty_sq(
                            state,
                            all,
                            58,
                        ) && is_empty_sq(state, all, 59) {
                            let m = Move::new(60, 58, QUEEN_CASTLE);
                            let ghost b = move_list@;
                            add_move(move_list, m, Ghost(*state), side, Ghost(c), Ghost(ep));
                            proof {
                                lemma_grows_trans(a, b, move_list@, *state, side, c, ep);
                            }
                        }
                    }
                },
            }
        },
        None => {},
    }
}

/// Adds every pseudo-legal move of `side`: each piece's moves by how it moves, double pushes,
/// promotions, en passant onto `en_passant_square` and the castling moves `castling_rights`
/// and the empty squares allow, whether or not the mover's king is left in check.
pub fn generate_pseudo_legal_moves(
    state: &BoardState,
    side: Side,
    castling_rights: CastlingRights,
    en_passant_square: Option<Square>,
    move_list: &mut MoveBuffer,
)
    requires
        old(move_list).wf(),
        state.wf(),
        en_passant_square matches Some(sq) ==> sq.0 < 64,
    ensures
        final(move_list).wf(),
        grows_by(old(move_list)@, final(move_list)@, *state, side, castling_rights.0, en_passant_square),
{
    let ghost c = castling_rights.0;
    let ghost e = en_passant_square;
    let ghost s0 = move_list@;
    gen_pawn_moves_with_ep(state, side, en_passant_square, move_list, Ghost(c));
    let ghost s1 = move_list@;
    gen_knight_moves(state, side, move_list, Ghost(c), Ghost(e));
    let ghost s2 = move_list@;
    gen_bishop_moves(state, side, move_list, Ghost(c), Ghost(e));
    let ghost s3 = move_list@;
    gen_rook_moves(state, side, move_list, Ghost(c), Ghost(e));
    let ghost s4 = move_list@;
    gen_queen_moves(state, side, move_list, Ghost(c), Ghost(e));
    let ghost s5 = move_list@;
    gen_king_moves_with_castling(state, side, castling_rights, move_list, Ghost(e));
    proof {
        lemma_grows_trans(s0, s1, s2, *state, side, c, e);
        lemma_grows_trans(s0, s2, s3, *state, side, c, e);
        lemma_grows_trans(s0, s3, s4, *state, side, c, e);
        lemma_grows_trans(s0, s4, s5, *state, side, c, e);
        lemma_grows_trans(s0, s5, move_list@, *state, side, c, e);
    }
}

/// Adds the pseudo-legal moves of `side`'s pieces of kind `piece`.
pub fn generate_pseudo_legal_piece_moves(
    piece: Piece,
    state: &BoardState,
    side: Side,
    castling_rights: CastlingRights,
    en_passant_square: Option<Square>,
    move_list: &mut MoveBuffer,
)
    requires
        old(move_list).wf(),
        state.wf(),
        en_passant_square matches Some(sq) ==> sq.0 < 64,
    ensures
        final(move_list).wf(),
        grows_by(old(move_list)@, final(move_list)@, *state, side, castling_rights.0, en_passant_square),
{
    let ghost c = castling_rights.0;
    let ghost e = en_passant_square;
    match piece {
        Piece::Pawn => gen_pawn_moves_with_ep(state, side, en_passant_square, move_list, Ghost(c)),
        Piece::Knight => gen_knight_moves(state, side, move_list, Ghost(c), Ghost(e)),
        Piece::Bishop => gen_bishop_moves(state, side, move_list, Ghost(c), Ghost(e)),
        Piece::Rook => gen_rook_moves(state, side, move_list, Ghost(c), Ghost(e)),
        Piece::Queen => gen_queen_moves(state, side, move_list, Ghost(c), Ghost(e)),
        Piece::King => gen_king_moves_with_castling(state, side, castling_rights, move_list, Ghost(e)),
    }
}

} // verus!

verus! {


/// Which moves a legal move generation keeps.
pub trait MoveGenType {
    /// Quiet moves are left out, but for those that give check.
    fn forcing_only() -> bool;

    /// Only captures and promotions are kept.
    fn captures_only() -> bool;
}

/// Every legal move.
pub struct AllMoves;

impl MoveGenType for AllMoves {
    fn forcing_only() -> bool {
        false
    }

    fn captures_only() -> bool {
        false
    }
}

/// Captures, promotions and checks.
pub struct ForcingMoves;

impl MoveGenType for ForcingMoves {
    fn forcing_only() -> bool {
        true
    }

    fn captures_only() -> bool {
        false
    }
}

/// Captures and promotions.
pub struct CapturesOnly;

impl MoveGenType for CapturesOnly {
    fn forcing_only() -> bool {
        true
    }

    fn captures_only() -> bool {
        true
    }
}

/// `b` starts with `a`.
pub open spec fn keeps_prefix(a: Seq<Move>, b: Seq<Move>) -> bool {
    a.len() <= b.len() && b.subrange(0, a.len() as int) == a
}

/// Move `m` fits the board's position and side to move.
pub open spec fn board_fits(board: Board, m: u16) -> bool {
    move_fits(board.positions, board.stm, board.castling_rights.0, board.enpassant_square, m)
}

/// `b` is `a` followed by moves that fit the board.
pub open spec fn board_grows(board: Board, a: Seq<Move>, b: Seq<Move>) -> bool {
    grows_by(a, b, board.positions, board.stm, board.castling_rights.0, board.enpassant_square)
}

/// No pawn of `side` stands on the rank it promotes on.
pub open spec fn pawns_placed_ok(pos: BoardState, side: Side) -> bool {
    forall|sq: int| 0 <= sq < 64 && #[trigger] bit_of(pos.piece_bb(side, Piece::Pawn), sq) ==> sq / 8 != promo_rank(side)
}


/// A plain quiet move or capture, or a castling move, by its flag.
pub open spec fn plain_flag(m: u16) -> bool {
    let fl = mv_flags(m);
    fl == QUIET || fl == CAPTURE || fl == KING_CASTLE || fl == QUEEN_CASTLE
}

/// `b` is `a` followed by moves that fit the board or carry a plain flag.
pub open spec fn grows_weak(board: Board, a: Seq<Move>, b: Seq<Move>) -> bool {
    &&& keeps_prefix(a, b)
    &&& forall|i: int| a.len() <= i < b.len() ==> board_fits(board, #[trigger] b[i].0) || plain_flag(b[i].0)
}

proof fn lemma_weak_from_grows(board: Board, a: Seq<Move>, b: Seq<Move>)
    requires
        board_grows(board, a, b),
    ensures
        grows_weak(board, a, b),
{
    assert forall|i: int| a.len() <= i < b.len() implies board_fits(board, #[trigger] b[i].0) || plain_flag(b[i].0) by {
        assert(move_fits(board.positions, board.stm, board.castling_rights.0, board.enpassant_square, b[i].0));
    }
}

proof fn lemma_weak_trans(board: Board, a: Seq<Move>, b: Seq<Move>, c: Seq<Move>)
    requires
        grows_weak(board, a, b),
        grows_weak(board, b, c),
    ensures
        grows_weak(board, a, c),
{
    assert(c.subrange(0, a.len() as int) =~= b.subrange(0, a.len() as int));
    assert forall|i: int| a.len() <= i < c.len() implies board_fits(board, #[trigger] c[i].0) || plain_flag(c[i].0) by {
        if i < b.len() {
            assert(c[i] == b[i]);
            assert(board_fits(board, b[i].0) || plain_flag(b[i].0));
        }
    }
}

/// Adds `m`; when `cond` holds, `m` fits the board and so does what the buffer then holds.
fn add_move_if(moves: &mut MoveBuffer, m: Move, board: &Board, Ghost(cond): Ghost<bool>)
    requires
        old(moves).wf(),
        cond ==> board_fits(*board, m.0),
        board_fits(*board, m.0) || plain_flag(m.0),
    ensures
        final(moves).wf(),
        keeps_prefix(old(moves)@, final(moves)@),
        grows_weak(*board, old(moves)@, final(moves)@),
        cond ==> board_grows(*board, old(moves)@, final(moves)@),
{
    let ghost a = moves@;
    proof {
        lemma_grows_refl(a, board.positions, board.stm, board.castling_rights.0, board.enpassant_square);
    }
    if moves.len() < MAX_MOVES {
        moves.push(m);
        proof {
            assert(moves@.subrange(0, a.len() as int) =~= a);
        }
    }
}

proof fn lemma_keeps_trans(a: Seq<Move>, b: Seq<Move>, c: Seq<Move>)
    requires
        keeps_prefix(a, b),
        keeps_prefix(b, c),
    ensures
        keeps_prefix(a, c),
{
    assert(c.subrange(0, a.len() as int) =~= b.subrange(0, a.len() as int));
}

/// The king's legal moves: steps to squares the opponent does not attack, and castling when
/// not in check, through squares neither occupied nor attacked.
fn gen_legal_king_moves<T: MoveGenType>(board: &Board, attack_data: &AttackData, moves: &mut MoveBuffer)
    requires
        old(moves).wf(),
        board.wf(),
        attack_data.king_sq < 64,
    ensures
        final(moves).wf(),
        keeps_prefix(old(moves)@, final(moves)@),
        grows_weak(*board, old(moves)@, final(moves)@),
        board.positions.mb()[attack_data.king_sq as int] == Some(PieceInfo { piece: Piece::King, side: board.stm })
            ==> board_grows(*board, old(moves)@, final(moves)@),
{
    let ghost a = moves@;
    let ghost kok = board.positions.mb()[attack_data.king_sq as int] == Some(PieceInfo { piece: Piece::King, side: board.stm });
    proof {
        lemma_grows_refl(a, board.positions, board.stm, board.castling_rights.0, board.enpassant_square);
        lemma_weak_from_grows(*board, a, a);
        board.positions.lemma_mb_len();
    }
    let side = board.stm;
    let from_sq = attack_data.king_sq;
    let targets = piece_targets(&board.positions, side, Piece::King, from_sq);
    let mut legal_targets = BitBoard(targets);
    let forcing = T::forcing_only();
    let captures = T::captures_only();
    while legal_targets.0 != 0
        invariant
            moves.wf(),
            board.wf(),
            from_sq == attack_data.king_sq,
            from_sq < 64,
            kok == (board.positions.mb()[from_sq as int] == Some(PieceInfo { piece: Piece::King, side })),
            side == board.stm,
            forall|t: int| 0 <= t < 64 && #[trigger] bit_of(legal_targets.0, t) ==> bit_of(targets, t),
            forall|t: int| 0 <= t < 64 ==> (#[trigger] bit_of(targets, t) <==> piece_reaches(Piece::King, from_sq as int, t, occupied(board.positions))
                && !bit_of(board.positions.side_bb(side), t)),
            keeps_prefix(a, moves@),
            grows_weak(*board, a, moves@),
            kok ==> board_grows(*board, a, moves@),
        decreases legal_targets.0,
    {
        let to_sq = legal_targets.pop_lsb() as usize;
        if !attack_data.opp_attack_map.contains_square(to_sq) {
            let is_capture = board.positions.is_occupied(to_sq);
            if captures && !is_capture {
                continue;
            }
            if !forcing || is_capture {
                let flag = if is_capture { CAPTURE } else { QUIET };
                let m = Move::new(from_sq as u8, to_sq as u8, flag);
                proof {
                    assert(bit_of(targets, to_sq as int));
                    if board.positions.mb()[to_sq as int] is Some {
                        let sd = board.positions.mb()[to_sq as int]->0.side;
                        assert(bit_of(board.positions.side_bb(sd), to_sq as int));
                    }
                }
                let ghost b = moves@;
                add_move_if(moves, m, board, Ghost(kok));
                proof {
                    lemma_keeps_trans(a, b, moves@);
                    lemma_weak_trans(*board, a, b, moves@);
                    if kok {
                        lemma_grows_trans(a, b, moves@, board.positions, board.stm, board.castling_rights.0, board.enpassant_square);
                    }
                }
            }
        }
    }
    if !captures && !forcing && !attack_data.in_check {
        let all = board.positions.get_occupied_bb();
        let map = attack_data.opp_attack_map;
        let rights = board.castling_rights;
        match side {
            Side::White => {
                if rights.allows(CastlingRights(WHITE_00)) && is_empty_sq(&board.positions, all, 5) && is_empty_sq(
                    &board.positions,
                    all,
                    6,
                ) && !map.contains_square(5) && !map.contains_square(6) {
                    let ghost b = moves@;
                    add_move_if(moves, Move::new(4, 6, KING_CASTLE), board, Ghost(true));
                    proof {
                        lemma_keeps_trans(a, b, moves@);
                        lemma_weak_trans(*board, a, b, moves@);
                        if kok {
                            lemma_grows_trans(a, b, moves@, board.positions, board.stm, board.castling_rights.0, board.enpassant_square);
                        }
                    }
                }
                if rights.allows(CastlingRights(WHITE_000)) && is_empty_sq(&board.positions, all, 1) && is_empty_sq(
                    &board.positions,
                    all,
                    2,
                ) && is_empty_sq(&board.positions, all, 3) && !map.contains_square(2) && !map.contains_square(3) {
                    let ghost b = moves@;
                    add_move_if(moves, Move::new(4, 2, QUEEN_CASTLE), board, Ghost(true));
                    proof {
                        lemma_keeps_trans(a, b, moves@);
                        lemma_weak_trans(*board, a, b, moves@);
                        if kok {
                            lemma_grows_trans(a, b, moves@, board.positions, board.stm, board.castling_rights.0, board.enpassant_square);
                        }
                    }
                }
            },
            Side::Black => {
                if rights.allows(CastlingRights(BLACK_00)) && is_empty_sq(&board.positions, all, 61) && is_empty_sq(
                    &board.positions,
                    all,
                    62,
                ) && !map.contains_square(61) && !map.contains_square(62) {
                    let ghost b = moves@;
                    add_move_if(moves, Move::new(60, 62, KING_CASTLE), board, Ghost(true));
                    proof {
                        lemma_keeps_trans(a, b, moves@);
                        lemma_weak_trans(*board, a, b, moves@);
                        if kok {
                            lemma_grows_trans(a, b, moves@, board.positions, board.stm, board.castling_rights.0, board.enpassant_square);
                        }
                    }
                }
                if rights.allows(CastlingRights(BLACK_000)) && is_empty_sq(&board.positions, all, 57) && is_empty_sq(
                    &board.positions,
                    all,
                    58,
                ) && is_empty_sq(&board.positions, all, 59) && !map.contains_square(58) && !map.contains_square(59) {
                    let ghost b = moves@;
                    add_move_if(moves, Move::new(60, 58, QUEEN_CASTLE), board, Ghost(true));
                    proof {
                        lemma_keeps_trans(a, b, moves@);
                        lemma_weak_trans(*board, a, b, moves@);
                        if kok {
                            lemma_grows_trans(a, b, moves@, board.positions, board.stm, board.castling_rights.0, board.enpassant_square);
                        }
                    }
                }
            },
        }
    }
}

/// A piece of kind `piece` of `side` on `sq` attacks `t`, with `occ` the occupied squares.
pub open spec fn attacks_from(piece: Piece, side: Side, sq: int, t: int, occ: u64) -> bool {
    match piece {
        Piece::Pawn => pawn_attack_target(sq, t, side),
        Piece::Knight => knight_target(sq, t),
        Piece::King => king_target(sq, t),
        Piece::Bishop => bishop_set(sq, occ).contains(t),
        Piece::Rook => rook_set(sq, occ).contains(t),
        Piece::Queen => rook_set(sq, occ).contains(t) || bishop_set(sq, occ).contains(t),
    }
}

/// The squares a piece of kind `piece` of `side` on `from` attacks on this board.
pub(crate) fn get_piece_attacks(board: &Board, side: Side, piece: Piece, from: usize) -> (r: BitBoard)
    requires
        from < 64,
    ensures
        forall|t: int| 0 <= t < 64 ==> (#[trigger] r.has(t) <==> attacks_from(piece, side, from as int, t, occupied(board.positions))),
{
    let occ = board.positions.get_occupied_bb();
    match piece {
        Piece::Pawn => pawn_attacks(from, side),
        Piece::Knight => knight_attacks(from),
        Piece::King => king_attacks(from),
        Piece::Bishop => bishop_attacks(from, occ),
        Piece::Rook => rook_attacks(from, occ),
        Piece::Queen => rook_attacks(from, occ).or(bishop_attacks(from, occ)),
    }
}

/// A rook or queen of `side` on a rook line from `k`, or a bishop or queen on a diagonal,
/// with `occ` the occupied squares.
pub open spec fn sliders_see(pos: BoardState, side: Side, k: int, occ: u64) -> bool {
    ||| exists|t: int| 0 <= t < 64 && bit_of(ortho_bb(pos, side), t) && #[trigger] rook_set(k, occ).contains(t)
    ||| exists|t: int| 0 <= t < 64 && bit_of(diag_bb(pos, side), t) && #[trigger] bishop_set(k, occ).contains(t)
}

/// `from` lies on a line from `k`.
pub open spec fn on_line_from(k: int, from: int) -> bool {
    dir_index(spec_get_dir(k, from)) < 8 && dir_slide(k, spec_get_dir(k, from), 0u64).contains(from)
}

/// The test for whether move `m` of the side to move checks the king on `k`: the moved
/// piece (the promoted one, for a promotion), standing on the destination, attacks `k` (with the occupancy before the move); or
/// the origin lies on a line from `k` and a slider of the mover sees `k` with the origin
/// emptied; or, for en passant, a slider sees `k` once both pawns have left and the
/// destination is filled.
pub open spec fn move_checks(board: Board, m: u16, k: int) -> bool {
    let pos = board.positions;
    let from = mv_from(m);
    let to = mv_to(m);
    let occ = occupied(pos);
    let cap_sq = if board.stm == Side::White { to - 8 } else { to + 8 };
    match pos.mb()[from] {
        None => false,
        Some(info) => {
            ||| attacks_from(
                match flag_promo_piece(mv_flags(m)) {
                    Some(p) => p,
                    None => info.piece,
                },
                board.stm,
                to,
                k,
                occ,
            )
            ||| on_line_from(k, from) && sliders_see(pos, board.stm, k, occ & !(1u64 << (from as u64)))
            ||| mv_flags(m) == EN_PASSANT && sliders_see(
                pos,
                board.stm,
                k,
                ((occ & !(1u64 << (from as u64))) & !(1u64 << (cap_sq as u64))) | (1u64 << (to as u64)),
            )
        },
    }
}

/// Whether some square holds both a square of `a` and of `b`, with `a` given as a set.
fn meets(a: BitBoard, b: BitBoard) -> (r: bool)
    ensures
        r == exists|t: int| 0 <= t < 64 && bit_of(a.0, t) && #[trigger] bit_of(b.0, t),
{
    let x = a.0 & b.0;
    proof {
        crate::bitboard::lemma_nonzero_has_bit(x);
        if x != 0 {
            let i = choose|i: int| 0 <= i < 64 && bit_of(x, i);
            assert(bit_of(a.0, i) && bit_of(b.0, i));
        } else {
            assert forall|t: int| 0 <= t < 64 && bit_of(a.0, t) implies !#[trigger] bit_of(b.0, t) by {
                assert(!bit_of(x, t));
            }
        }
    }
    x != 0
}

/// Whether a slider of the side to move sees square `k` with `occ` occupied.
fn slider_check(board: &Board, k: usize, occ: BitBoard) -> (r: bool)
    requires
        k < 64,
    ensures
        r == sliders_see(board.positions, board.stm, k as int, occ.0),
{
    let rooks_queens = board.positions.get_ortho_sliders_bb(board.stm);
    let bishops_queens = board.positions.get_diag_sliders_bb(board.stm);
    let magic_rook = rook_attacks(k, occ);
    let magic_bishop = bishop_attacks(k, occ);
    let r1 = meets(rooks_queens, magic_rook);
    let r2 = meets(bishops_queens, magic_bishop);
    proof {
        let pos = board.positions;
        let side = board.stm;
        if r1 {
            let t = choose|t: int| 0 <= t < 64 && bit_of(rooks_queens.0, t) && #[trigger] bit_of(magic_rook.0, t);
            assert(rook_set(k as int, occ.0).contains(t));
        }
        if exists|t: int| 0 <= t < 64 && bit_of(ortho_bb(pos, side), t) && #[trigger] rook_set(k as int, occ.0).contains(t) {
            let t = choose|t: int| 0 <= t < 64 && bit_of(ortho_bb(pos, side), t) && #[trigger] rook_set(k as int, occ.0).contains(t);
            assert(bit_of(magic_rook.0, t));
        }
        if r2 {
            let t = choose|t: int| 0 <= t < 64 && bit_of(bishops_queens.0, t) && #[trigger] bit_of(magic_bishop.0, t);
            assert(bishop_set(k as int, occ.0).contains(t));
        }
        if exists|t: int| 0 <= t < 64 && bit_of(diag_bb(pos, side), t) && #[trigger] bishop_set(k as int, occ.0).contains(t) {
            let t = choose|t: int| 0 <= t < 64 && bit_of(diag_bb(pos, side), t) && #[trigger] bishop_set(k as int, occ.0).contains(t);
            assert(bit_of(magic_bishop.0, t));
        }
    }
    r1 || r2
}

/// Whether move `mv` gives check to the king on `opponent_king_sq`, directly or by
/// uncovering a slider.
fn is_move_a_check(board: &Board, mv: Move, opponent_king_sq: usize) -> (r: bool)
    requires
        board.positions.wf(),
        opponent_king_sq < 64,
        mv_flags(mv.0) == EN_PASSANT ==> (if board.stm == Side::White { mv_to(mv.0) >= 8 } else { mv_to(mv.0) < 56 }),
    ensures
        r == move_checks(*board, mv.0, opponent_king_sq as int),
{
    let from = mv.from_sq().index();
    let to = mv.to_sq().index();
    let piece = match board.get_piece_at(mv.from_sq()) {
        Some(p) => p,
        None => {
            return false;
        },
    };
    let checker = match mv.promoted_piece() {
        Some(p) => p,
        None => piece,
    };
    let direct = get_piece_attacks(board, board.stm, checker, to);
    if direct.contains_square(opponent_king_sq) {
        return true;
    }
    let tables = MoveTables::new();
    let king_and_from_ray = tables.get_ray(opponent_king_sq, Direction::get_dir(opponent_king_sq, from));
    let occupied_bb = board.positions.get_occupied_bb();
    let ghost on_line = on_line_from(opponent_king_sq as int, from as int);
    proof {
        if dir_index(spec_get_dir(opponent_king_sq as int, from as int)) >= 8 {
            assert(king_and_from_ray.0 == 0);
            crate::bitboard::lemma_bit_zero(from as int);
        }
    }
    let mut found = false;
    if king_and_from_ray.contains_square(from) {
        let occ1 = BitBoard(occupied_bb.0 & !(1u64 << from as u64));
        found = slider_check(board, opponent_king_sq, occ1);
    }
    if found {
        return true;
    }
    if mv.is_enpassant() {
        let captured_pawn_sq = if board.stm == Side::White { to - 8 } else { to + 8 };
        let occ2 = BitBoard(((occupied_bb.0 & !(1u64 << from as u64)) & !(1u64 << captured_pawn_sq as u64)) | (1u64 << to as u64));
        if slider_check(board, opponent_king_sq, occ2) {
            return true;
        }
    }
    false
}

/// The square of the opponent's king (its lowest square), or 0 when it has none.
fn opponent_king_square(board: &Board) -> (r: usize)
    ensures
        r < 64,
        board.positions.piece_bb(board.stm.spec_flip(), Piece::King) == 0 ==> r == 0,
        board.positions.piece_bb(board.stm.spec_flip(), Piece::King) != 0 ==> r == u64_trailing_zeros(
            board.positions.piece_bb(board.stm.spec_flip(), Piece::King),
        ),
{
    match board.positions.get_piece_bb(board.stm.flip(), Piece::King).lsb() {
        Some(s) => s as usize,
        None => 0,
    }
}

/// The squares a piece on `from` may move to under the pin and check restrictions: along its
/// pin ray when pinned, and onto the check mask.
fn legal_mask(attack_data: &AttackData, from: usize) -> (r: u64)
    requires
        attack_data.king_sq < 64,
        from < 64,
    ensures
        !attack_data.pin_ray_mask.has(from as int) ==> r == attack_data.check_ray_mask.0,
        attack_data.pin_ray_mask.has(from as int) ==> forall|t: int| 0 <= t < 64 ==> (#[trigger] bit_of(r, t) <==> (
            dir_index(spec_get_dir(attack_data.king_sq as int, from as int)) < 8 && dir_slide(
                attack_data.king_sq as int,
                spec_get_dir(attack_data.king_sq as int, from as int),
                0u64,
            ).contains(t) && attack_data.check_ray_mask.has(t))),
{
    let tables = MoveTables::new();
    if attack_data.pin_ray_mask.contains_square(from) {
        let ray = tables.get_ray(attack_data.king_sq, Direction::get_dir(attack_data.king_sq, from)).0;
        proof {
            if dir_index(spec_get_dir(attack_data.king_sq as int, from as int)) >= 8 {
                assert forall|t: int| 0 <= t < 64 implies !bit_of(ray, t) by {
                    crate::bitboard::lemma_bit_zero(t);
                }
            }
        }
        ray & attack_data.check_ray_mask.0
    } else {
        proof {
            let c = attack_data.check_ray_mask.0;
            assert(!0u64 & c == c) by (bit_vector);
        }
        !0u64 & attack_data.check_ray_mask.0
    }
}

/// The legal moves of `side`'s pieces of kind `piece`, a bishop, rook or queen, or a knight
/// (which moves only when not pinned).
fn gen_legal_piece_moves<T: MoveGenType>(board: &Board, piece: Piece, attack_data: &AttackData, moves: &mut MoveBuffer)
    requires
        old(moves).wf(),
        board.wf(),
        attack_data.king_sq < 64,
        piece != Piece::Pawn && piece != Piece::King,
    ensures
        final(moves).wf(),
        board_grows(*board, old(moves)@, final(moves)@),
{
    let ghost a = moves@;
    proof {
        lemma_grows_refl(a, board.positions, board.stm, board.castling_rights.0, board.enpassant_square);
        board.positions.lemma_mb_len();
    }
    let side = board.stm;
    let enemy = *board.positions.get_side_bb(side.flip());
    let mut piece_bb = *board.positions.get_piece_bb(side, piece);
    if piece == Piece::Knight {
        piece_bb = piece_bb.and(attack_data.pin_ray_mask.not());
    }
    let opponent_king_sq = opponent_king_square(board);
    let forcing = T::forcing_only();
    let captures = T::captures_only();
    while piece_bb.0 != 0
        invariant
            moves.wf(),
            board.wf(),
            side == board.stm,
            attack_data.king_sq < 64,
            opponent_king_sq < 64,
            piece != Piece::Pawn && piece != Piece::King,
            enemy.0 == board.positions.side_bb(side.spec_flip()),
            forall|t: int| 0 <= t < 64 && #[trigger] bit_of(piece_bb.0, t) ==> bit_of(board.positions.piece_bb(side, piece), t),
            board_grows(*board, a, moves@),
        decreases piece_bb.0,
    {
        let from_sq = piece_bb.pop_lsb() as usize;
        proof {
            assert(bit_of(board.positions.piece_bb(side, piece), from_sq as int));
        }
        let attacks = piece_targets(&board.positions, side, piece, from_sq);
        let mask = legal_mask(attack_data, from_sq);
        let mut legal_targets = BitBoard(attacks & mask);
        while legal_targets.0 != 0
            invariant
                moves.wf(),
                board.wf(),
                side == board.stm,
                from_sq < 64,
                opponent_king_sq < 64,
                board.positions.mb()[from_sq as int] == Some(PieceInfo { piece, side }),
                piece != Piece::Pawn,
                enemy.0 == board.positions.side_bb(side.spec_flip()),
                forall|t: int| 0 <= t < 64 && #[trigger] bit_of(legal_targets.0, t) ==> bit_of(attacks, t),
                forall|t: int| 0 <= t < 64 ==> (#[trigger] bit_of(attacks, t) <==> piece_reaches(piece, from_sq as int, t, occupied(board.positions))
                    && !bit_of(board.positions.side_bb(side), t)),
                board_grows(*board, a, moves@),
            decreases legal_targets.0,
        {
            let to_sq = legal_targets.pop_lsb() as usize;
            let is_capture = enemy.contains_square(to_sq);
            if captures && !is_capture {
                continue;
            }
            let flag = if is_capture { CAPTURE } else { QUIET };
            let current_move = Move::new(from_sq as u8, to_sq as u8, flag);
            if !forcing || is_capture || (!captures && is_move_a_check(board, current_move, opponent_king_sq)) {
                proof {
                    assert(bit_of(attacks, to_sq as int));
                    if board.positions.mb()[to_sq as int] is Some {
                        let sd = board.positions.mb()[to_sq as int]->0.side;
                        assert(bit_of(board.positions.side_bb(sd), to_sq as int));
                    }
                    assert(board_fits(*board, current_move.0));
                }
                let ghost b = moves@;
                add_move_if(moves, current_move, board, Ghost(true));
                proof {
                    lemma_grows_trans(a, b, moves@, board.positions, board.stm, board.castling_rights.0, board.enpassant_square);
                }
            }
        }
    }
}

/// The legal moves of the bishops, rooks or queens of the side to move.
fn gen_legal_sliding_moves<T: MoveGenType>(board: &Board, piece: Piece, attack_data: &AttackData, moves: &mut MoveBuffer)
    requires
        old(moves).wf(),
        board.wf(),
        attack_data.king_sq < 64,
    ensures
        final(moves).wf(),
        board_grows(*board, old(moves)@, final(moves)@),
{
    match piece {
        Piece::Bishop | Piece::Rook | Piece::Queen => gen_legal_piece_moves::<T>(board, piece, attack_data, moves),
        _ => {
            proof {
                lemma_grows_refl(moves@, board.positions, board.stm, board.castling_rights.0, board.enpassant_square);
            }
        },
    }
}

/// The legal moves of the knights of the side to move that are not pinned.
fn gen_legal_knight_moves<T: MoveGenType>(board: &Board, attack_data: &AttackData, moves: &mut MoveBuffer)
    requires
        old(moves).wf(),
        board.wf(),
        attack_data.king_sq < 64,
    ensures
        final(moves).wf(),
        board_grows(*board, old(moves)@, final(moves)@),
{
    gen_legal_piece_moves::<T>(board, Piece::Knight, attack_data, moves);
}

/// The pin direction of the piece on `from`: the direction from the king when it is pinned.
fn pin_direction(attack_data: &AttackData, from: usize) -> (r: Option<i8>)
    requires
        attack_data.king_sq < 64,
        from < 64,
    ensures
        attack_data.pin_ray_mask.has(from as int) ==> r == Some(spec_get_dir(attack_data.king_sq as int, from as int)),
        !attack_data.pin_ray_mask.has(from as int) ==> r is None,
{
    if attack_data.pin_ray_mask.contains_square(from) {
        Some(Direction::get_dir(attack_data.king_sq, from).0)
    } else {
        None
    }
}

/// The pushes of the pawn of the side to move on `from`, kept to the check mask, the
/// promotions when only forcing moves are asked for.
fn gen_legal_pawn_pushes<T: MoveGenType>(
    board: &Board,
    attack_data: &AttackData,
    from_sq: usize,
    all: BitBoard,
    opponent_king_sq: usize,
    moves: &mut MoveBuffer,
)
    requires
        old(moves).wf(),
        board.wf(),
        from_sq < 64,
        opponent_king_sq < 64,
        attack_data.king_sq < 64,
        all.0 == occupied(board.positions),
        board.positions.mb()[from_sq as int] == Some(PieceInfo { piece: Piece::Pawn, side: board.stm }),
        from_sq / 8 != promo_rank(board.stm),
    ensures
        final(moves).wf(),
        board_grows(*board, old(moves)@, final(moves)@),
{
    let ghost a = moves@;
    proof {
        lemma_grows_refl(a, board.positions, board.stm, board.castling_rights.0, board.enpassant_square);
        board.positions.lemma_mb_len();
    }
    let side = board.stm;
    let pin_dir = pin_direction(attack_data, from_sq);
    let push_dir: i8 = if side == Side::White { NORTH } else { SOUTH };
    let promo: usize = if side == Side::White { 7 } else { 0 };
    let free = match pin_dir {
        None => true,
        Some(d) => d == push_dir,
    };
    if !free {
        return;
    }
    let one_step = if side == Side::White { from_sq + 8 } else { from_sq - 8 };
    if !is_empty_sq(&board.positions, all, one_step) || !attack_data.check_ray_mask.contains_square(one_step) {
        if T::forcing_only() || !is_empty_sq(&board.positions, all, one_step) {
            return;
        }
    }
    proof {
        assert(one_step == (from_sq / 8 + (if side == Side::White { 1int } else { -1int })) * 8 + from_sq % 8);
    }
    if !T::forcing_only() {
        if attack_data.check_ray_mask.contains_square(one_step) {
            proof {
                assert(pawn_push_target(from_sq as int, one_step as int, side, occupied(board.positions)));
            }
            let ghost b = moves@;
            if one_step / 8 == promo {
                add_promo_moves(from_sq as u8, one_step as u8, false, moves, Ghost(board.positions), side,
                    Ghost(board.castling_rights.0), Ghost(board.enpassant_square));
            } else {
                add_move_if(moves, Move::new(from_sq as u8, one_step as u8, QUIET), board, Ghost(true));
            }
            proof {
                lemma_grows_trans(a, b, moves@, board.positions, board.stm, board.castling_rights.0, board.enpassant_square);
            }
        }
        let start_rank: usize = if side == Side::White { 1 } else { 6 };
        if from_sq / 8 == start_rank {
            let two_steps = if side == Side::White { from_sq + 16 } else { from_sq - 16 };
            if is_empty_sq(&board.positions, all, two_steps) && attack_data.check_ray_mask.contains_square(two_steps) {
                proof {
                    assert(pawn_push_target(from_sq as int, two_steps as int, side, occupied(board.positions)));
                }
                let ghost b = moves@;
                add_move_if(moves, Move::new(from_sq as u8, two_steps as u8, DOUBLE_PAWN), board, Ghost(true));
                proof {
                    lemma_grows_trans(a, b, moves@, board.positions, board.stm, board.castling_rights.0, board.enpassant_square);
                }
            }
        }
    } else {
        if one_step / 8 == promo {
            proof {
                assert(pawn_push_target(from_sq as int, one_step as int, side, occupied(board.positions)));
            }
            if T::captures_only() {
                let ghost b = moves@;
                add_promo_moves(from_sq as u8, one_step as u8, false, moves, Ghost(board.positions), side,
                    Ghost(board.castling_rights.0), Ghost(board.enpassant_square));
                proof {
                    lemma_grows_trans(a, b, moves@, board.positions, board.stm, board.castling_rights.0, board.enpassant_square);
                }
            }
            let promo_move = Move::new(from_sq as u8, one_step as u8, PROMO_Q);
            if is_move_a_check(board, promo_move, opponent_king_sq) {
                let ghost b = moves@;
                add_promo_moves(from_sq as u8, one_step as u8, false, moves, Ghost(board.positions), side,
                    Ghost(board.castling_rights.0), Ghost(board.enpassant_square));
                proof {
                    lemma_grows_trans(a, b, moves@, board.positions, board.stm, board.castling_rights.0, board.enpassant_square);
                }
            }
        }
    }
}

/// Whether no enemy slider sees the king on `king_sq` once the pawn on `from` has taken en
/// passant onto `ep`, the pawn on `captured` gone.
fn ep_keeps_king_safe(board: &Board, king_sq: usize, all: BitBoard, from: usize, captured: usize, ep: usize) -> (r: bool)
    requires
        king_sq < 64,
        from < 64,
        captured < 64,
        ep < 64,
    ensures
        r == !sliders_see(
            board.positions,
            board.stm.spec_flip(),
            king_sq as int,
            ((all.0 & !(1u64 << (from as u64))) & !(1u64 << (captured as u64))) | (1u64 << (ep as u64)),
        ),
{
    let occ = BitBoard(((all.0 & !(1u64 << from as u64)) & !(1u64 << captured as u64)) | (1u64 << ep as u64));
    let other = Board { stm: board.stm.flip(), ..*board };
    !slider_check(&other, king_sq, occ)
}

/// The captures of the pawn of the side to move on `from`, en passant included, kept to its
/// pin ray and, but for en passant, to the check mask.
fn gen_legal_pawn_captures(
    board: &Board,
    attack_data: &AttackData,
    from_sq: usize,
    all: BitBoard,
    moves: &mut MoveBuffer,
)
    requires
        old(moves).wf(),
        board.wf(),
        from_sq < 64,
        attack_data.king_sq < 64,
        all.0 == occupied(board.positions),
        board.positions.mb()[from_sq as int] == Some(PieceInfo { piece: Piece::Pawn, side: board.stm }),
    ensures
        final(moves).wf(),
        board_grows(*board, old(moves)@, final(moves)@),
{
    let ghost a = moves@;
    proof {
        lemma_grows_refl(a, board.positions, board.stm, board.castling_rights.0, board.enpassant_square);
        board.positions.lemma_mb_len();
    }
    let side = board.stm;
    let enemy = *board.positions.get_side_bb(side.flip());
    let pin_dir = pin_direction(attack_data, from_sq);
    let promo: usize = if side == Side::White { 7 } else { 0 };
    let attacks = pawn_attacks(from_sq, side);
    let mut capture_targets = BitBoard(attacks.0 & enemy.0);
    while capture_targets.0 != 0
        invariant
            moves.wf(),
            board.wf(),
            side == board.stm,
            from_sq < 64,
            board.positions.mb()[from_sq as int] == Some(PieceInfo { piece: Piece::Pawn, side }),
            promo == promo_rank(side),
            enemy.0 == board.positions.side_bb(side.spec_flip()),
            forall|t: int| 0 <= t < 64 && #[trigger] bit_of(capture_targets.0, t) ==> attacks.has(t) && bit_of(enemy.0, t),
            forall|t: int| 0 <= t < 64 ==> (#[trigger] attacks.has(t) <==> pawn_attack_target(from_sq as int, t, side)),
            board_grows(*board, a, moves@),
        decreases capture_targets.0,
    {
        let to_sq = capture_targets.pop_lsb() as usize;
        let capture_dir = Direction::get_dir(from_sq, to_sq);
        let free = match pin_dir {
            None => true,
            Some(d) => d == capture_dir.0,
        };
        if free && attack_data.check_ray_mask.contains_square(to_sq) {
            proof {
                assert(attacks.has(to_sq as int) && bit_of(enemy.0, to_sq as int));
            }
            let ghost b = moves@;
            if to_sq / 8 == promo {
                add_promo_moves(from_sq as u8, to_sq as u8, true, moves, Ghost(board.positions), side,
                    Ghost(board.castling_rights.0), Ghost(board.enpassant_square));
            } else {
                add_move_if(moves, Move::new(from_sq as u8, to_sq as u8, CAPTURE), board, Ghost(true));
            }
            proof {
                lemma_grows_trans(a, b, moves@, board.positions, board.stm, board.castling_rights.0, board.enpassant_square);
            }
        }
    }
    match board.enpassant_square {
        Some(ep_sq) => {
            if attacks.contains_square(ep_sq.index()) {
                let ep_dir = Direction::get_dir(from_sq, ep_sq.index());
                let free = match pin_dir {
                    None => true,
                    Some(d) => d == ep_dir.0,
                };
                if free {
                    let ep = ep_sq.index();
                    let captured_pawn_sq = if side == Side::White { ep - 8 } else { ep + 8 };
                    if ep_keeps_king_safe(board, attack_data.king_sq, all, from_sq, captured_pawn_sq, ep) {
                        let m = Move::new(from_sq as u8, ep as u8, EN_PASSANT);
                        proof {
                            assert(board_fits(*board, m.0));
                        }
                        let ghost b = moves@;
                        add_move_if(moves, m, board, Ghost(true));
                        proof {
                            lemma_grows_trans(a, b, moves@, board.positions, board.stm, board.castling_rights.0, board.enpassant_square);
                        }
                    }
                }
            }
        },
        None => {},
    }
}

/// The legal moves of the pawns of the side to move.
fn gen_legal_pawn_moves<T: MoveGenType>(board: &Board, attack_data: &AttackData, moves: &mut MoveBuffer)
    requires
        old(moves).wf(),
        board.wf(),
        attack_data.king_sq < 64,
        pawns_placed_ok(board.positions, board.stm),
    ensures
        final(moves).wf(),
        board_grows(*board, old(moves)@, final(moves)@),
{
    let ghost a = moves@;
    proof {
        lemma_grows_refl(a, board.positions, board.stm, board.castling_rights.0, board.enpassant_square);
    }
    let side = board.stm;
    let all = board.positions.get_occupied_bb();
    let opponent_king_sq = opponent_king_square(board);
    let mut pawns_bb = *board.positions.get_piece_bb(side, Piece::Pawn);
    while pawns_bb.0 != 0
        invariant
            moves.wf(),
            board.wf(),
            side == board.stm,
            attack_data.king_sq < 64,
            opponent_king_sq < 64,
            all.0 == occupied(board.positions),
            pawns_placed_ok(board.positions, board.stm),
            forall|t: int| 0 <= t < 64 && #[trigger] bit_of(pawns_bb.0, t) ==> bit_of(board.positions.piece_bb(side, Piece::Pawn), t),
            board_grows(*board, a, moves@),
        decreases pawns_bb.0,
    {
        let from_sq = pawns_bb.pop_lsb() as usize;
        proof {
            assert(bit_of(board.positions.piece_bb(side, Piece::Pawn), from_sq as int));
        }
        let ghost b = moves@;
        gen_legal_pawn_pushes::<T>(board, attack_data, from_sq, all, opponent_king_sq, moves);
        let ghost c = moves@;
        gen_legal_pawn_captures(board, attack_data, from_sq, all, moves);
        proof {
            lemma_grows_trans(a, b, c, board.positions, board.stm, board.castling_rights.0, board.enpassant_square);
            lemma_grows_trans(a, c, moves@, board.positions, board.stm, board.castling_rights.0, board.enpassant_square);
        }
    }
}

/// Adds the legal moves of the side to move (of the kind `T` keeps): king moves only in double
/// check, else king, pawn, knight, bishop, rook and queen moves, each respecting pins and the
/// check mask.
pub fn generate_legal_moves<T: MoveGenType>(board: &Board, moves: &mut MoveBuffer)
    requires
        old(moves).wf(),
        board.wf(),
        pawns_placed_ok(board.positions, board.stm),
    ensures
        final(moves).wf(),
        keeps_prefix(old(moves)@, final(moves)@),
        grows_weak(*board, old(moves)@, final(moves)@),
        board.positions.piece_bb(board.stm, Piece::King) != 0 ==> board_grows(*board, old(moves)@, final(moves)@),
{
    let side = board.stm;
    let attack_data = calculate_attack_data(board, side);
    let ghost a = moves@;
    let ghost kok = board.positions.piece_bb(board.stm, Piece::King) != 0;
    proof {
        if kok {
            crate::bitboard::lemma_lowest_bit(board.positions.piece_bb(board.stm, Piece::King));
            assert(bit_of(board.positions.piece_bb(board.stm, Piece::King), attack_data.king_sq as int));
        }
    }
    gen_legal_king_moves::<T>(board, &attack_data, moves);
    if attack_data.double_check {
        return;
    }
    let ghost s1 = moves@;
    gen_legal_pawn_moves::<T>(board, &attack_data, moves);
    let ghost s2 = moves@;
    gen_legal_knight_moves::<T>(board, &attack_data, moves);
    let ghost s3 = moves@;
    gen_legal_sliding_moves::<T>(board, Piece::Bishop, &attack_data, moves);
    let ghost s4 = moves@;
    gen_legal_sliding_moves::<T>(board, Piece::Rook, &attack_data, moves);
    let ghost s5 = moves@;
    gen_legal_sliding_moves::<T>(board, Piece::Queen, &attack_data, moves);
    proof {
        let pos = board.positions;
        let c = board.castling_rights.0;
        let e = board.enpassant_square;
        lemma_grows_trans(s1, s2, s3, pos, side, c, e);
        lemma_grows_trans(s1, s3, s4, pos, side, c, e);
        lemma_grows_trans(s1, s4, s5, pos, side, c, e);
        lemma_grows_trans(s1, s5, moves@, pos, side, c, e);
        lemma_keeps_trans(a, s1, moves@);
        lemma_weak_from_grows(*board, s1, moves@);
        lemma_weak_trans(*board, a, s1, moves@);
        if kok {
            lemma_grows_trans(a, s1, moves@, pos, side, c, e);
        }
    }
}

/// The pieces of `side` that attack `square`, with `occupied` the occupied squares (a piece
/// counts only while its square is in `occupied`).
pub fn get_attackers_to(board: &Board, square: Square, side: Side, occupied: BitBoard) -> (r: BitBoard)
    requires
        square.0 < 64,
    ensures
        forall|t: int| 0 <= t < 64 ==> (#[trigger] r.has(t) <==> bit_of(occupied.0, t) && (
            (bit_of(board.positions.piece_bb(side, Piece::Pawn), t) && pawn_attack_target(square.0 as int, t, side.spec_flip()))
            || (bit_of(board.positions.piece_bb(side, Piece::Knight), t) && knight_target(square.0 as int, t))
            || (bit_of(board.positions.piece_bb(side, Piece::King), t) && king_target(square.0 as int, t))
            || (bit_of(diag_bb(board.positions, side), t) && bishop_set(square.0 as int, occupied.0).contains(t))
            || (bit_of(ortho_bb(board.positions, side), t) && rook_set(square.0 as int, occupied.0).contains(t)))),
{
    let sq_idx = square.index();
    let opponent = side.flip();
    let pos = &board.positions;
    let pa = pawn_attacks(sq_idx, opponent);
    let ka = knight_attacks(sq_idx);
    let kg = king_attacks(sq_idx);
    let mut attackers = pa.0 & pos.get_piece_bb(side, Piece::Pawn).0 & occupied.0;
    attackers = attackers | (ka.0 & pos.get_piece_bb(side, Piece::Knight).0 & occupied.0);
    attackers = attackers | (kg.0 & pos.get_piece_bb(side, Piece::King).0 & occupied.0);
    let bishops_queens = pos.get_diag_sliders_bb(side);
    let rooks_queens = pos.get_ortho_sliders_bb(side);
    let bishop_att = bishop_attacks(sq_idx, occupied);
    attackers = attackers | (bishop_att.0 & bishops_queens.0 & occupied.0);
    let rook_att = rook_attacks(sq_idx, occupied);
    attackers = attackers | (rook_att.0 & rooks_queens.0 & occupied.0);
    proof {
        assert forall|t: int| 0 <= t < 64 implies (#[trigger] bit_of(attackers, t) <==> bit_of(occupied.0, t) && (
            (bit_of(board.positions.piece_bb(side, Piece::Pawn), t) && pawn_attack_target(square.0 as int, t, side.spec_flip()))
            || (bit_of(board.positions.piece_bb(side, Piece::Knight), t) && knight_target(square.0 as int, t))
            || (bit_of(board.positions.piece_bb(side, Piece::King), t) && king_target(square.0 as int, t))
            || (bit_of(diag_bb(board.positions, side), t) && bishop_set(square.0 as int, occupied.0).contains(t))
            || (bit_of(ortho_bb(board.positions, side), t) && rook_set(square.0 as int, occupied.0).contains(t)))) by {
            assert(pa.has(t) == pawn_attack_target(sq_idx as int, t, opponent));
            assert(ka.has(t) == knight_target(sq_idx as int, t));
            assert(kg.has(t) == king_target(sq_idx as int, t));
        }
    }
    BitBoard(attackers)
}

/// Whether no pawn of the side to move stands on the rank it promotes on.
pub fn pawns_placed_check(board: &Board) -> (r: bool)
    ensures
        r == pawns_placed_ok(board.positions, board.stm),
{
    let pawns = board.positions.get_piece_bb(board.stm, Piece::Pawn);
    let rank_start: usize = if board.stm == Side::White { 56 } else { 0 };
    let mut f: usize = 0;
    while f < 8
        invariant
            f <= 8,
            rank_start == promo_rank(board.stm) * 8,
            pawns.0 == board.positions.piece_bb(board.stm, Piece::Pawn),
            forall|sq: int| rank_start <= sq < rank_start + f ==> !bit_of(pawns.0, sq),
        decreases 8 - f,
    {
        if pawns.contains_square(rank_start + f) {
            return false;
        }
        f = f + 1;
    }
    true
}

} // verus!
