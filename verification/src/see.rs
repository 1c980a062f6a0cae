use vstd::prelude::*;
use vstd::std_specs::bits::u64_trailing_zeros;
use crate::attack_data::{diag_bb, ortho_bb, occupied};
use crate::bitboard::{BitBoard, bit_of, is_lowest_bit, group_bits};
use crate::board::Board;
use crate::components::{Piece, Side, Square};
use crate::move_gen::get_attackers_to;
use crate::move_info::{Move, mv_from, mv_to, mv_flags, EN_PASSANT};
use crate::move_tables::{pawn_attack_target, knight_target, king_target, bishop_set, rook_set};

verus! {

broadcast use group_bits;

/// A piece of `side` on `t`, present in `occ`, attacks `to`, sliders seeing through the
/// squares missing from `occ`.
pub open spec fn attacks_sq(b: Board, to: int, side: Side, occ: u64, t: int) -> bool {
    let pos = b.positions;
    bit_of(occ, t) && ((bit_of(pos.piece_bb(side, Piece::Pawn), t) && pawn_attack_target(to, t, side.spec_flip()))
        || (bit_of(pos.piece_bb(side, Piece::Knight), t) && knight_target(to, t)) || (bit_of(
        pos.piece_bb(side, Piece::King),
        t,
    ) && king_target(to, t)) || (bit_of(diag_bb(pos, side), t) && bishop_set(to, occ).contains(t)) || (bit_of(
        ortho_bb(pos, side),
        t,
    ) && rook_set(to, occ).contains(t)))
}

/// A piece of kind `p` of `side` on `t` attacks `to`.
pub open spec fn candidate(b: Board, to: int, side: Side, occ: u64, p: Piece, t: int) -> bool {
    bit_of(b.positions.piece_bb(side, p), t) && attacks_sq(b, to, side, occ, t)
}

/// Some piece of kind `p` of `side` attacks `to`.
pub open spec fn has_candidate(b: Board, to: int, side: Side, occ: u64, p: Piece) -> bool {
    exists|t: int| 0 <= t < 64 && #[trigger] candidate(b, to, side, occ, p, t)
}

/// The lowest square from which a piece of kind `p` of `side` attacks `to`.
pub open spec fn lowest_candidate(b: Board, to: int, side: Side, occ: u64, p: Piece) -> int {
    choose|t: int|
        0 <= t < 64 && #[trigger] candidate(b, to, side, occ, p, t) && forall|u: int|
            0 <= u < t ==> !candidate(b, to, side, occ, p, u)
}

/// The least valuable attacker of `to` of `side`: the first kind, from pawn to king, with an
/// attacker, on its lowest such square.
pub open spec fn lva(b: Board, to: int, side: Side, occ: u64) -> Option<(Piece, int)> {
    if has_candidate(b, to, side, occ, Piece::Pawn) {
        Some((Piece::Pawn, lowest_candidate(b, to, side, occ, Piece::Pawn)))
    } else if has_candidate(b, to, side, occ, Piece::Knight) {
        Some((Piece::Knight, lowest_candidate(b, to, side, occ, Piece::Knight)))
    } else if has_candidate(b, to, side, occ, Piece::Bishop) {
        Some((Piece::Bishop, lowest_candidate(b, to, side, occ, Piece::Bishop)))
    } else if has_candidate(b, to, side, occ, Piece::Rook) {
        Some((Piece::Rook, lowest_candidate(b, to, side, occ, Piece::Rook)))
    } else if has_candidate(b, to, side, occ, Piece::Queen) {
        Some((Piece::Queen, lowest_candidate(b, to, side, occ, Piece::Queen)))
    } else if has_candidate(b, to, side, occ, Piece::King) {
        Some((Piece::King, lowest_candidate(b, to, side, occ, Piece::King)))
    } else {
        None
    }
}

/// The gains of the captures on `to` that follow, `side` capturing next with its least
/// valuable attacker and the sides alternating, at most `fuel` of them: each the value of
/// the piece captured less the gain before it.
pub open spec fn exchange_list(b: Board, to: int, side: Side, occ: u64, prev: int, fuel: nat) -> Seq<int>
    decreases fuel,
{
    if fuel == 0 {
        Seq::empty()
    } else {
        match lva(b, to, side, occ) {
            None => Seq::empty(),
            Some((p, t)) => {
                let g = p.spec_victim_score() - prev;
                seq![g] + exchange_list(b, to, side.spec_flip(), occ & !(1u64 << (t as u64)), g, (fuel - 1) as nat)
            },
        }
    }
}

/// The occupied squares once `mv` has been made: its origin empty, and for en passant the
/// captured pawn's square too.
pub open spec fn occ_after(b: Board, mv: u16) -> u64 {
    let from = mv_from(mv);
    let to = mv_to(mv);
    let o = occupied(b.positions) & !(1u64 << (from as u64));
    if mv_flags(mv) == EN_PASSANT {
        let v = if b.stm == Side::White { to - 8 } else { to + 8 };
        o & !(1u64 << (v as u64))
    } else {
        o
    }
}

/// The swap list of `mv`: the value of the piece it captures, the value of the moving piece
/// less that, then the gains of the exchange that follows, at most 32 in all.
pub open spec fn swap_list(b: Board, mv: u16, attacker: Piece, victim: Piece) -> Seq<int> {
    let v = victim.spec_victim_score() as int;
    let a = attacker.spec_victim_score() - v;
    seq![v, a] + exchange_list(b, mv_to(mv), b.stm.spec_flip(), occ_after(b, mv), a, 30)
}

/// The value of the swap list `g` from entry `d` on, with only its first `n` entries real:
/// each side may stop capturing when going on loses.
pub open spec fn resolve(g: Seq<int>, d: int, n: int) -> int
    decreases n - d,
{
    if d >= n - 1 {
        g[n - 1]
    } else {
        let rest = resolve(g, d + 1, n);
        if g[d] <= -rest {
            g[d]
        } else {
            -rest
        }
    }
}

/// The piece that `mv` captures: a pawn for en passant, else what stands on its target.
pub open spec fn victim_of(b: Board, mv: u16) -> Option<Piece> {
    if mv_flags(mv) == EN_PASSANT {
        Some(Piece::Pawn)
    } else {
        match b.positions.mb()[mv_to(mv)] {
            Some(info) => Some(info.piece),
            None => None,
        }
    }
}

/// The static exchange value of `mv`: 0 when it captures nothing; else the swap list
/// resolved with its last, speculative, entry left out.
pub open spec fn see_value(b: Board, mv: u16) -> int {
    let attacker = b.positions.mb()[mv_from(mv)]->0.piece;
    match victim_of(b, mv) {
        None => 0,
        Some(victim) => {
            let g = swap_list(b, mv, attacker, victim);
            resolve(g, 0, g.len() - 1)
        },
    }
}

/// The least valuable attacker of `to` of `side`, with `occ` the occupied squares.
fn least_valuable_attacker(board: &Board, to: Square, side: Side, occ: BitBoard) -> (r: Option<(Piece, usize)>)
    requires
        to.0 < 64,
    ensures
        r matches Some((p, t)) ==> t < 64 && lva(*board, to.0 as int, side, occ.0) == Some((p, t as int)),
        r is None ==> lva(*board, to.0 as int, side, occ.0) is None,
{
    let attackers = get_attackers_to(board, to, side, occ);
    let pieces = Piece::all_pieces();
    let mut k: usize = 0;
    while k < 6
        invariant
            k <= 6,
            to.0 < 64,
            forall|i: int| 0 <= i < 6 ==> #[trigger] pieces@[i] == Piece::from_index(i),
            forall|t: int| 0 <= t < 64 ==> (#[trigger] attackers.has(t) <==> attacks_sq(*board, to.0 as int, side, occ.0, t)),
            forall|i: int| 0 <= i < k ==> !has_candidate(*board, to.0 as int, side, occ.0, #[trigger] Piece::from_index(i)),
        decreases 6 - k,
    {
        let piece = pieces[k];
        let cands = attackers.0 & board.positions.get_piece_bb(side, piece).0;
        proof {
            assert forall|t: int| 0 <= t < 64 implies #[trigger] bit_of(cands, t) == candidate(*board, to.0 as int, side, occ.0, piece, t) by {
                assert(attackers.has(t) == bit_of(attackers.0, t));
            }
        }
        if cands != 0 {
            let sq = BitBoard(cands).lsb();
            let t = match sq {
                Some(t) => t,
                None => 0,
            };
            proof {
                assert(is_lowest_bit(cands, t as int));
                assert(candidate(*board, to.0 as int, side, occ.0, piece, t as int));
                assert(has_candidate(*board, to.0 as int, side, occ.0, piece));
                let c = lowest_candidate(*board, to.0 as int, side, occ.0, piece);
                assert(forall|u: int| 0 <= u < t ==> !#[trigger] candidate(*board, to.0 as int, side, occ.0, piece, u)) by {
                    assert forall|u: int| 0 <= u < t implies !#[trigger] candidate(*board, to.0 as int, side, occ.0, piece, u) by {
                        assert(!bit_of(cands, u));
                    }
                }
                assert(c == t);
                assert(piece == Piece::from_index(k as int));
                assert(Piece::from_index(0) == Piece::Pawn && Piece::from_index(1) == Piece::Knight && Piece::from_index(2)
                    == Piece::Bishop && Piece::from_index(3) == Piece::Rook && Piece::from_index(4) == Piece::Queen
                    && Piece::from_index(5) == Piece::King);
                if k > 0 {
                    assert(!has_candidate(*board, to.0 as int, side, occ.0, Piece::from_index(0)));
                }
                if k > 1 {
                    assert(!has_candidate(*board, to.0 as int, side, occ.0, Piece::from_index(1)));
                }
                if k > 2 {
                    assert(!has_candidate(*board, to.0 as int, side, occ.0, Piece::from_index(2)));
                }
                if k > 3 {
                    assert(!has_candidate(*board, to.0 as int, side, occ.0, Piece::from_index(3)));
                }
                if k > 4 {
                    assert(!has_candidate(*board, to.0 as int, side, occ.0, Piece::from_index(4)));
                }
            }
            return Some((piece, t as usize));
        }
        proof {
            assert(!has_candidate(*board, to.0 as int, side, occ.0, piece)) by {
                if has_candidate(*board, to.0 as int, side, occ.0, piece) {
                    let t = choose|t: int| 0 <= t < 64 && #[trigger] candidate(*board, to.0 as int, side, occ.0, piece, t);
                    assert(bit_of(cands, t));
                    crate::bitboard::lemma_bit_zero(t);
                }
            }
        }
        k = k + 1;
    }
    proof {
        assert(!has_candidate(*board, to.0 as int, side, occ.0, Piece::from_index(0)));
        assert(!has_candidate(*board, to.0 as int, side, occ.0, Piece::from_index(1)));
        assert(!has_candidate(*board, to.0 as int, side, occ.0, Piece::from_index(2)));
        assert(!has_candidate(*board, to.0 as int, side, occ.0, Piece::from_index(3)));
        assert(!has_candidate(*board, to.0 as int, side, occ.0, Piece::from_index(4)));
        assert(!has_candidate(*board, to.0 as int, side, occ.0, Piece::from_index(5)));
    }
    None
}

/// A resolved swap list is no larger in size than its largest real entry.
proof fn lemma_resolve_bound(g: Seq<int>, d: int, n: int, bound: int)
    requires
        1 <= n <= g.len(),
        0 <= d,
        forall|i: int| 0 <= i < n ==> -bound <= #[trigger] g[i] <= bound,
    ensures
        -bound <= resolve(g, d, n) <= bound,
    decreases n - d,
{
    if d < n - 1 {
        lemma_resolve_bound(g, d + 1, n, bound);
    }
}

impl Board {
    /// The material `mv` wins or loses once every capture on its target square that follows
    /// is played out, each side capturing with its least valuable attacker and stopping when
    /// going on loses; 0 when `mv` captures nothing.
    #[verifier::rlimit(40)]
    pub fn static_exchange_evaluation(&self, mv: Move) -> (r: i32)
        requires
            self.positions.wf(),
            self.positions.mb()[mv_from(mv.0)] is Some,
            mv_flags(mv.0) == EN_PASSANT ==> (if self.stm == Side::White { mv_to(mv.0) >= 8 } else { mv_to(mv.0) + 8 < 64 }),
        ensures
            r == see_value(*self, mv.0),
            -640_000 <= r <= 640_000,
    {
        let from_sq = mv.from_sq();
        let to_sq = mv.to_sq();
        let mut side_to_move = self.stm;
        let mut occ = self.positions.get_occupied_bb();
        let mut gain = [0i32; 32];
        let attacker_piece = match self.get_piece_at(from_sq) {
            Some(p) => p,
            None => {
                return 0;
            },
        };
        let victim_piece = if mv.is_enpassant() {
            Piece::Pawn
        } else {
            match self.get_piece_at(to_sq) {
                Some(p) => p,
                None => {
                    return 0;
                },
            }
        };
        gain[0] = victim_piece.victim_score();
        gain[1] = attacker_piece.victim_score() - gain[0];
        occ.capture(from_sq.index());
        if mv.is_enpassant() {
            let victim_sq = if side_to_move == Side::White { to_sq.0 - 8 } else { to_sq.0 + 8 };
            occ.capture(victim_sq);
        }
        side_to_move = side_to_move.flip();
        let ghost full = swap_list(*self, mv.0, attacker_piece, victim_piece);
        let mut prev: i32 = gain[1];
        let mut idx: usize = 2;
        proof {
            assert(occ.0 == occ_after(*self, mv.0));
            assert(gain@.subrange(0, 2).map_values(|x: i32| x as int) =~= seq![gain[0] as int, gain[1] as int]);
        }
        loop
            invariant
                2 <= idx <= 32,
                to_sq.0 == mv_to(mv.0),
                to_sq.0 < 64,
                full == swap_list(*self, mv.0, attacker_piece, victim_piece),
                gain@.subrange(0, idx as int).map_values(|x: i32| x as int) + exchange_list(
                    *self,
                    to_sq.0 as int,
                    side_to_move,
                    occ.0,
                    prev as int,
                    (32 - idx) as nat,
                ) == full,
                prev == gain[idx - 1],
                forall|j: int| 0 <= j < idx ==> -20_000 * (j + 1) <= #[trigger] gain[j] <= 20_000 * (j + 1),
            ensures
                2 <= idx <= 32,
                gain@.subrange(0, idx as int).map_values(|x: i32| x as int) == full,
                forall|j: int| 0 <= j < idx ==> -640_000 <= #[trigger] gain[j] <= 640_000,
            decreases 32 - idx,
        {
            let ghost before = gain@.subrange(0, idx as int).map_values(|x: i32| x as int);
            if idx >= 32 {
                proof {
                    assert(before + Seq::<int>::empty() =~= before);
                }
                break;
            }
            match least_valuable_attacker(self, to_sq, side_to_move, occ) {
                Some((p, t)) => {
                    let g = p.victim_score() - prev;
                    let ghost rest = exchange_list(
                        *self,
                        to_sq.0 as int,
                        side_to_move.spec_flip(),
                        occ.0 & !(1u64 << (t as u64)),
                        g as int,
                        (32 - idx - 1) as nat,
                    );
                    gain[idx] = g;
                    prev = g;
                    occ.capture(t);
                    side_to_move = side_to_move.flip();
                    proof {
                        assert(gain@.subrange(0, idx as int + 1).map_values(|x: i32| x as int) =~= before.push(g as int));
                        assert(before + (seq![g as int] + rest) =~= before.push(g as int) + rest);
                    }
                    idx = idx + 1;
                },
                None => {
                    proof {
                        assert(before + Seq::<int>::empty() =~= before);
                    }
                    break;
                },
            }
        }
        let n = idx - 1;
        proof {
            assert forall|j: int| 0 <= j < idx implies #[trigger] full[j] == gain[j] by {
                assert(gain@.subrange(0, idx as int).map_values(|x: i32| x as int)[j] == gain[j]);
            }
            lemma_resolve_bound(full, 0, n as int, 640_000);
        }
        let mut d: usize = n;
        while d > 1
            invariant
                1 <= d <= n,
                n == idx - 1,
                2 <= idx <= 32,
                full.len() == idx,
                forall|j: int| 0 <= j < idx ==> -640_000 <= #[trigger] full[j] <= 640_000,
                forall|j: int| d - 1 <= j < n ==> #[trigger] gain[j] == resolve(full, j, n as int),
                forall|j: int| 0 <= j < d - 1 ==> #[trigger] gain[j] == full[j],
            decreases d,
        {
            d = d - 1;
            proof {
                lemma_resolve_bound(full, d as int, n as int, 640_000);
            }
            let other = -gain[d];
            if other < gain[d - 1] {
                gain[d - 1] = other;
            }
        }
        gain[0]
    }
}

} // verus!
