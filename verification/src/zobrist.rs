use vstd::prelude::*;
use rand::rngs::StdRng;
use rand::{Rng, SeedableRng};
use crate::components::{Piece, PieceInfo, Side, Square};
use crate::move_tables::pawn_attack_target;
use crate::board::{Board, pawn_can_take_on};

verus! {

/// Seed of the key generator, so that every run hashes alike.
pub const ZOBRIST_SEED: u64 = 1070373321345817214;

#[verifier::external_type_specification]
#[verifier::external_body]
pub struct ExStdRng(StdRng);

/// `StdRng::seed_from_u64`: a generator started from `seed`. Nothing is claimed of its state.
#[verifier::external_body]
fn seeded_rng(seed: u64) -> StdRng {
    StdRng::seed_from_u64(seed)
}

/// `Rng::random::<u64>`: the generator's next 64-bit value. Nothing is claimed of the value.
#[verifier::external_body]
fn next_random_u64(rng: &mut StdRng) -> u64 {
    rng.random::<u64>()
}

/// Random keys whose exclusive-or identifies a position.
#[derive(Debug, Clone, Copy)]
pub struct ZobristKeys {
    /// One key per side, piece kind and square.
    pub pieces: [[[u64; 64]; 6]; 2],
    /// One key per value of the four castling right bits.
    pub castling: [u64; 16],
    /// One key per en passant file.
    pub en_passant_file: [u64; 8],
    /// Toggled when black is to move.
    pub black_to_move: u64,
}

/// The key of what stands on square `sq`; 0 for an empty square.
pub open spec fn piece_key(keys: ZobristKeys, e: Option<PieceInfo>, sq: int) -> u64 {
    match e {
        Some(info) => keys.pieces[info.side.spec_index() as int][info.piece.spec_index() as int][sq],
        None => 0u64,
    }
}

/// Exclusive-or of the keys of the first `n` squares.
pub open spec fn pieces_hash(keys: ZobristKeys, mb: Seq<Option<PieceInfo>>, n: int) -> u64
    decreases n,
{
    if n <= 0 {
        0u64
    } else {
        pieces_hash(keys, mb, n - 1) ^ piece_key(keys, mb[n - 1], n - 1)
    }
}

/// A pawn of `stm` stands where it could take en passant on square `ep`.
pub open spec fn ep_capturable(mb: Seq<Option<PieceInfo>>, stm: Side, ep: int) -> bool {
    exists|t: int|
        0 <= t < 64 && #[trigger] pawn_attack_target(ep, t, stm.spec_flip()) && mb[t] == Some(
            PieceInfo { piece: Piece::Pawn, side: stm },
        )
}

/// The en passant part of the hash: the file key when a capture there is possible.
pub open spec fn ep_key(keys: ZobristKeys, mb: Seq<Option<PieceInfo>>, stm: Side, ep: Option<Square>) -> u64 {
    match ep {
        Some(sq) => if ep_capturable(mb, stm, sq.0 as int) {
            keys.en_passant_file[(sq.0 % 8) as int]
        } else {
            0u64
        },
        None => 0u64,
    }
}

/// The hash of a position.
pub open spec fn position_hash(
    keys: ZobristKeys,
    mb: Seq<Option<PieceInfo>>,
    stm: Side,
    castling: u8,
    ep: Option<Square>,
) -> u64 {
    pieces_hash(keys, mb, 64) ^ keys.castling[(castling & 15) as int] ^ ep_key(keys, mb, stm, ep) ^ (if stm
        == Side::Black {
        keys.black_to_move
    } else {
        0u64
    })
}

pub proof fn lemma_xor_facts(a: u64, b: u64, c: u64)
    ensures
        a ^ 0u64 == a,
        0u64 ^ a == a,
        a ^ a == 0u64,
        (a ^ b) ^ c == a ^ (b ^ c),
        a ^ b == b ^ a,
{
    assert(a ^ 0u64 == a && 0u64 ^ a == a && a ^ a == 0u64 && (a ^ b) ^ c == a ^ (b ^ c) && a ^ b == b ^ a)
        by (bit_vector);
}

/// Changing what stands on square `k` changes the hash by the old and new keys of `k`.
pub proof fn lemma_pieces_hash_update(keys: ZobristKeys, mb: Seq<Option<PieceInfo>>, k: int, v: Option<PieceInfo>, n: int)
    requires
        0 <= k < mb.len(),
        n <= mb.len(),
    ensures
        pieces_hash(keys, mb.update(k, v), n) == pieces_hash(keys, mb, n) ^ (if k < n {
            piece_key(keys, mb[k], k) ^ piece_key(keys, v, k)
        } else {
            0u64
        }),
    decreases n,
{
    let mb2 = mb.update(k, v);
    if n <= 0 {
        lemma_xor_facts(0u64, 0u64, 0u64);
    } else {
        lemma_pieces_hash_update(keys, mb, k, v, n - 1);
        let x = pieces_hash(keys, mb, n - 1);
        let a = piece_key(keys, mb[k], k);
        let b = piece_key(keys, v, k);
        let y = piece_key(keys, mb[n - 1], n - 1);
        assert(pieces_hash(keys, mb, n) == x ^ y);
        if k < n - 1 {
            let d = a ^ b;
            assert(mb2[n - 1] == mb[n - 1]);
            assert(pieces_hash(keys, mb2, n - 1) == x ^ d);
            assert(pieces_hash(keys, mb2, n) == (x ^ d) ^ y);
            lemma_xor_facts(x, d, y);
            lemma_xor_facts(x, y, d);
            lemma_xor_facts(d, y, 0u64);
            assert((x ^ d) ^ y == (x ^ y) ^ d);
        } else if k == n - 1 {
            assert(pieces_hash(keys, mb2, n - 1) == x ^ 0u64);
            lemma_xor_facts(x, 0u64, 0u64);
            assert(mb2[n - 1] == v);
            assert(pieces_hash(keys, mb2, n) == x ^ b);
            assert(y == a);
            lemma_xor_facts(x, a, a ^ b);
            lemma_xor_facts(a, a, b);
            lemma_xor_facts(b, 0u64, 0u64);
            assert((x ^ a) ^ (a ^ b) == x ^ (a ^ (a ^ b)));
            assert(a ^ (a ^ b) == (a ^ a) ^ b);
            assert(a ^ a == 0u64);
            assert((a ^ a) ^ b == 0u64 ^ b);
            assert(0u64 ^ b == b);
            assert(a ^ (a ^ b) == b);
            assert((x ^ a) ^ (a ^ b) == x ^ b);
            assert((x ^ y) ^ (a ^ b) == x ^ b);
        } else {
            assert(mb2[n - 1] == mb[n - 1]);
            assert(pieces_hash(keys, mb2, n - 1) == x ^ 0u64);
            lemma_xor_facts(x, 0u64, 0u64);
            lemma_xor_facts(x ^ y, 0u64, 0u64);
        }
    }
}

impl ZobristKeys {
    /// Fresh keys from the generator seeded with [`ZOBRIST_SEED`]: first the side key, then the
    /// piece keys by side, piece kind and square, then the castling keys, then the file keys.
    pub fn new() -> (r: Self) {
        let mut rng = seeded_rng(ZOBRIST_SEED);
        let btm = next_random_u64(&mut rng);
        let mut keys = ZobristKeys {
            pieces: [[[0u64; 64]; 6]; 2],
            castling: [0u64; 16],
            en_passant_file: [0u64; 8],
            black_to_move: btm,
        };
        let mut s: usize = 0;
        while s < 2
            decreases 2 - s,
        {
            let mut p: usize = 0;
            while p < 6
                invariant
                    s < 2,
                decreases 6 - p,
            {
                let mut sq: usize = 0;
                let mut table = keys.pieces[s][p];
                while sq < 64
                    decreases 64 - sq,
                {
                    table[sq] = next_random_u64(&mut rng);
                    sq = sq + 1;
                }
                let mut side_tables = keys.pieces[s];
                side_tables[p] = table;
                keys.pieces[s] = side_tables;
                p = p + 1;
            }
            s = s + 1;
        }
        let mut i: usize = 0;
        while i < 16
            decreases 16 - i,
        {
            keys.castling[i] = next_random_u64(&mut rng);
            i = i + 1;
        }
        let mut j: usize = 0;
        while j < 8
            decreases 8 - j,
        {
            keys.en_passant_file[j] = next_random_u64(&mut rng);
            j = j + 1;
        }
        keys
    }

    /// The key of `side`'s `piece` on square `sq`.
    pub fn piece(&self, side: Side, piece: Piece, sq: usize) -> (r: u64)
        requires
            sq < 64,
        ensures
            r == self.pieces[side.spec_index() as int][piece.spec_index() as int][sq as int],
    {
        self.pieces[side.index()][piece.index()][sq]
    }
}

/// The hash of the board's position, computed from scratch: the keys of all pieces, of the
/// castling rights, of the en passant file when a pawn of the side to move can take there,
/// and of black to move.
pub fn calculate_hash(board: &Board, keys: &ZobristKeys) -> (r: u64)
    requires
        board.positions.wf(),
        board.enpassant_square matches Some(sq) ==> sq.0 < 64,
    ensures
        r == position_hash(*keys, board.positions.mb(), board.stm, board.castling_rights.0, board.enpassant_square),
{
    let mailbox = board.positions.mailbox();
    let mut hash: u64 = 0;
    let mut sq: usize = 0;
    proof {
        board.positions.lemma_mb_len();
    }
    while sq < 64
        invariant
            sq <= 64,
            mailbox@ == board.positions.mb(),
            hash == pieces_hash(*keys, board.positions.mb(), sq as int),
        decreases 64 - sq,
    {
        match mailbox[sq] {
            Some(info) => {
                hash = hash ^ keys.piece(info.side, info.piece, sq);
            },
            None => {
                proof {
                    lemma_xor_facts(hash, 0u64, 0u64);
                }
            },
        }
        sq = sq + 1;
    }
    hash = hash ^ keys.castling[board.castling_rights.get_rights() as usize];
    let ghost h1 = hash;
    match board.enpassant_square {
        Some(ep_sq) => {
            if pawn_can_take_on(&board.positions, board.stm, ep_sq.0) {
                hash = hash ^ keys.en_passant_file[ep_sq.col()];
            } else {
                proof {
                    lemma_xor_facts(hash, 0u64, 0u64);
                }
            }
        },
        None => {
            proof {
                lemma_xor_facts(hash, 0u64, 0u64);
            }
        },
    }
    if board.stm == Side::Black {
        hash = hash ^ keys.black_to_move;
    } else {
        proof {
            lemma_xor_facts(hash, 0u64, 0u64);
        }
    }
    hash
}

impl Default for ZobristKeys {
    /// All keys zero.
    fn default() -> (r: Self)
        ensures
            r.black_to_move == 0,
            forall|s: int, p: int, q: int| 0 <= s < 2 && 0 <= p < 6 && 0 <= q < 64 ==> #[trigger] r.pieces[s][p][q] == 0,
            forall|i: int| 0 <= i < 16 ==> #[trigger] r.castling[i] == 0,
            forall|i: int| 0 <= i < 8 ==> #[trigger] r.en_passant_file[i] == 0,
    {
        ZobristKeys { pieces: [[[0u64; 64]; 6]; 2], castling: [0u64; 16], en_passant_file: [0u64; 8], black_to_move: 0 }
    }
}

} // verus!
