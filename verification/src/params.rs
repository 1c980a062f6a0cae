use vstd::prelude::*;
use crate::components::Piece;
use crate::score::Score;

verus! {

/// Feature indices of the weights.
pub const MATERIAL_PAWN: usize = 0;
pub const MATERIAL_KNIGHT: usize = 1;
pub const MATERIAL_BISHOP: usize = 2;
pub const MATERIAL_ROOK: usize = 3;
pub const MATERIAL_QUEEN: usize = 4;
pub const BISHOP_PAIR_BONUS: usize = 5;
pub const CASTLING_BONUS: usize = 6;
pub const PAWN_SHIELD_FULL: usize = 7;
pub const PAWN_SHIELD_PARTIAL: usize = 8;
pub const OPEN_FILE_PENALTY: usize = 9;
pub const SEMI_OPEN_FILE_PENALTY: usize = 10;
pub const ISOLATED_PENALTY: usize = 11;
pub const DOUBLED_PENALTY: usize = 12;
pub const BACKWARD_PENALTY: usize = 13;
pub const CONNECTED_BONUS: usize = 14;
/// Passed pawns take eight indices, one per relative rank.
pub const PASSED_PAWN_START: usize = 15;
pub const ROOK_OPEN_FILE_BONUS: usize = 23;
pub const ROOK_SEMI_FILE_BONUS: usize = 24;
pub const KNIGHT_OUTPOST_BONUS: usize = 25;
/// Piece-square weights start here, 64 per piece kind.
pub const PST_START: usize = 26;
pub const NUM_PST_PARAMS: usize = 384;
pub const NUM_TRACE_FEATURES: usize = 410;
pub const MOBILITY_PARAMS_COUNT: usize = 5;
pub const SPSA_VECTOR_SIZE: usize = 830;

/// Largest magnitude of either half of a weight that evaluation takes: any 32-bit value but
/// the lowest, whose negation (a black feature counts against white) does not fit.
pub const WEIGHT_LIMIT: i32 = 2_147_483_647;

/// Piece-square values, mg pawn.
pub const MG_PAWN_PST: [i32; 64] = [
    0, 0, 0, 0, 0, 0, 0, 0,
    98, 134, 61, 95, 68, 126, 34, -11,
    -6, 7, 26, 31, 65, 56, 25, -20,
    -14, 13, 6, 21, 23, 12, 17, -23,
    -27, -2, -5, 12, 17, 6, 10, -25,
    -26, -4, -4, -10, 3, 3, 33, -12,
    -35, -1, -20, -23, -15, 24, 38, -22,
    0, 0, 0, 0, 0, 0, 0, 0,
];

/// Piece-square values, eg pawn.
pub const EG_PAWN_PST: [i32; 64] = [
    0, 0, 0, 0, 0, 0, 0, 0,
    178, 173, 158, 134, 147, 132, 165, 187,
    94, 100, 85, 67, 56, 53, 82, 84,
    32, 24, 13, 5, -2, 4, 17, 17,
    13, 9, -3, -7, -7, -8, 3, -1,
    4, 7, -6, 1, 0, -5, -1, -8,
    13, 8, 8, 10, 13, 0, 2, -7,
    0, 0, 0, 0, 0, 0, 0, 0,
];

/// Piece-square values, mg knight.
pub const MG_KNIGHT_PST: [i32; 64] = [
    -167, -89, -34, -49, 61, -97, -15, -107,
    -73, -41, 72, 36, 23, 62, 7, -17,
    -47, 60, 37, 65, 84, 129, 73, 44,
    -9, 17, 19, 53, 37, 69, 18, 22,
    -13, 4, 16, 13, 28, 19, 21, -8,
    -23, -9, 12, 10, 19, 17, 25, -16,
    -29, -53, -12, -3, -1, 18, -14, -19,
    -105, -21, -58, -33, -17, -28, -19, -23,
];

/// Piece-square values, eg knight.
pub const EG_KNIGHT_PST: [i32; 64] = [
    -58, -38, -13, -28, -31, -27, -63, -99,
    -25, -8, -25, -2, -9, -25, -24, -52,
    -24, -20, 10, 9, -1, -9, -19, -41,
    -17, 3, 22, 22, 22, 11, 8, -18,
    -18, -6, 16, 25, 16, 17, 4, -18,
    -23, -3, -1, 15, 10, -3, -20, -22,
    -42, -20, -10, -5, -2, -20, -23, -44,
    -29, -51, -23, -15, -22, -18, -50, -64,
];

/// Piece-square values, mg bishop.
pub const MG_BISHOP_PST: [i32; 64] = [
    -29, 4, -82, -37, -25, -42, 7, -8,
    -26, 16, -18, -13, 30, 59, 18, -47,
    -16, 37, 43, 40, 35, 50, 37, -2,
    -4, 5, 19, 50, 37, 37, 7, -2,
    -6, 13, 13, 26, 34, 12, 10, 4,
    0, 15, 15, 15, 14, 27, 18, 10,
    4, 15, 16, 0, 7, 21, 33, 1,
    -33, -3, -14, -21, -13, -12, -39, -21,
];

/// Piece-square values, eg bishop.
pub const EG_BISHOP_PST: [i32; 64] = [
    -14, -21, -11, -8, -7, -9, -17, -24,
    -8, -4, 7, -12, -3, -13, -4, -14,
    2, -8, 0, -1, -2, 6, 0, 4,
    -3, 9, 12, 9, 14, 10, 3, 2,
    -6, 3, 13, 19, 7, 10, -3, -9,
    -12, -3, 8, 10, 13, 3, -7, -15,
    -14, -18, -7, -1, 4, -9, -15, -27,
    -23, -9, -23, -5, -9, -16, -5, -17,
];

/// Piece-square values, mg rook.
pub const MG_ROOK_PST: [i32; 64] = [
    32, 42, 32, 51, 63, 9, 31, 43,
    27, 32, 58, 62, 80, 67, 26, 44,
    -5, 19, 26, 36, 17, 45, 61, 16,
    -24, -11, 7, 26, 24, 35, -8, -20,
    -36, -26, -12, -1, 9, -7, 6, -23,
    -45, -25, -16, -17, 3, 0, -5, -33,
    -44, -16, -20, -9, -1, 11, -6, -71,
    -19, -13, 1, 17, 16, 7, -37, -26,
];

/// Piece-square values, eg rook.
pub const EG_ROOK_PST: [i32; 64] = [
    13, 10, 18, 15, 12, 12, 8, 5,
    11, 13, 13, 11, -3, 3, 8, 3,
    7, 7, 7, 5, 4, -3, -5, -3,
    4, 3, 13, 1, 2, 1, -1, 2,
    3, 5, 8, 4, -5, -6, -8, -11,
    -4, 0, -5, -1, -7, -12, -8, -16,
    -6, -6, 0, 2, -9, -9, -11, -3,
    -9, 2, 3, -1, -5, -13, 4, -20,
];

/// Piece-square values, mg queen.
pub const MG_QUEEN_PST: [i32; 64] = [
    -28, 0, 29, 12, 59, 44, 43, 45,
    -24, -39, -5, 1, -16, 57, 28, 54,
    -13, -17, 7, 8, 29, 56, 47, 57,
    -27, -27, -16, -16, -1, 17, -2, 1,
    -9, -26, -9, -10, -2, -4, 3, -3,
    -14, 2, -11, -2, -5, 2, 14, 5,
    -35, -8, 11, 2, 8, 15, -3, 1,
    -1, -18, -9, 10, -15, -25, -31, -50,
];

/// Piece-square values, eg queen.
pub const EG_QUEEN_PST: [i32; 64] = [
    -9, 22, 22, 27, 27, 19, 10, 20,
    -17, 20, 32, 41, 58, 25, 30, 0,
    -20, 6, 9, 49, 47, 35, 19, 9,
    3, 22, 24, 45, 57, 40, 57, 36,
    -18, 28, 19, 47, 31, 34, 39, 23,
    -16, -27, 15, 6, 9, 17, 10, 5,
    -22, -23, -30, -16, -16, -23, -36, -32,
    -33, -28, -22, -43, -5, -32, -20, -41,
];

/// Piece-square values, mg king.
pub const MG_KING_PST: [i32; 64] = [
    -65, 23, 16, -15, -56, -34, 2, 13,
    29, -1, -20, -7, -8, -4, -38, -29,
    -9, 24, 2, -16, -20, 6, 22, -22,
    -17, -20, -12, -27, -30, -25, -14, -36,
    -49, -1, -27, -39, -46, -44, -33, -51,
    -14, -14, -22, -46, -44, -30, -15, -27,
    1, 7, -8, -64, -43, -16, 9, 8,
    -15, 36, 12, -54, 8, -28, 24, 14,
];

/// Piece-square values, eg king.
pub const EG_KING_PST: [i32; 64] = [
    -74, -35, -18, -18, -11, 15, 4, -17,
    -12, 17, 14, 17, 17, 38, 23, 11,
    10, 17, 23, 15, 20, 45, 44, 13,
    -8, 22, 24, 27, 26, 33, 26, 3,
    -18, -4, 21, 24, 27, 23, 9, -11,
    -19, -3, 11, 21, 23, 16, 7, -9,
    -27, -11, 4, 13, 14, 4, -5, -17,
    -53, -34, -21, -11, -28, -14, -24, -43,
];

/// The evaluation weights.
#[derive(Debug, Clone, Copy)]
pub struct TunableParams {
    /// Pawn, knight, bishop, rook, queen.
    pub material: [Score; 5],
    pub bishop_pair_bonus: Score,
    pub castling_bonus: Score,
    pub pawn_shield_full: Score,
    pub pawn_shield_partial: Score,
    pub open_file_penalty: Score,
    pub semi_open_file_penalty: Score,
    pub isolated_penalty: Score,
    pub doubled_penalty: Score,
    pub backward_penalty: Score,
    /// By relative rank.
    pub passed_pawn_scores: [Score; 8],
    pub connected_bonus: Score,
    pub rook_open_file_bonus: Score,
    pub rook_semi_file_bonus: Score,
    pub knight_outpost_bonus: Score,
    /// Per move, pawn, knight, bishop, rook, queen.
    pub mobility: [Score; 5],
    /// Piece-square weights, 64 per piece kind in piece index order.
    pub psts: [Score; 384],
}

/// A weight whose halves lie within the limit.
pub open spec fn weight_ok(s: Score) -> bool {
    -WEIGHT_LIMIT <= s.mg <= WEIGHT_LIMIT && -WEIGHT_LIMIT <= s.eg <= WEIGHT_LIMIT
}

/// Every weight lies within the limit.
pub open spec fn params_ok(p: TunableParams) -> bool {
    &&& forall|i: int| 0 <= i < 5 ==> #[trigger] weight_ok(p.material[i])
    &&& weight_ok(p.bishop_pair_bonus)
    &&& weight_ok(p.castling_bonus)
    &&& weight_ok(p.pawn_shield_full)
    &&& weight_ok(p.pawn_shield_partial)
    &&& weight_ok(p.open_file_penalty)
    &&& weight_ok(p.semi_open_file_penalty)
    &&& weight_ok(p.isolated_penalty)
    &&& weight_ok(p.doubled_penalty)
    &&& weight_ok(p.backward_penalty)
    &&& forall|i: int| 0 <= i < 8 ==> #[trigger] weight_ok(p.passed_pawn_scores[i])
    &&& weight_ok(p.connected_bonus)
    &&& weight_ok(p.rook_open_file_bonus)
    &&& weight_ok(p.rook_semi_file_bonus)
    &&& weight_ok(p.knight_outpost_bonus)
    &&& forall|i: int| 0 <= i < 5 ==> #[trigger] weight_ok(p.mobility[i])
    &&& forall|i: int| 0 <= i < 384 ==> #[trigger] weight_ok(p.psts[i])
}

/// The weight of feature `index`; zero for an index that names none.
pub open spec fn weight_of(p: TunableParams, index: int) -> Score {
    if index >= PST_START {
        if index - PST_START < 384 {
            p.psts[index - PST_START]
        } else {
            Score { mg: 0, eg: 0 }
        }
    } else if index == MATERIAL_PAWN {
        p.material[0]
    } else if index == MATERIAL_KNIGHT {
        p.material[1]
    } else if index == MATERIAL_BISHOP {
        p.material[2]
    } else if index == MATERIAL_ROOK {
        p.material[3]
    } else if index == MATERIAL_QUEEN {
        p.material[4]
    } else if index == BISHOP_PAIR_BONUS {
        p.bishop_pair_bonus
    } else if index == CASTLING_BONUS {
        p.castling_bonus
    } else if index == PAWN_SHIELD_FULL {
        p.pawn_shield_full
    } else if index == PAWN_SHIELD_PARTIAL {
        p.pawn_shield_partial
    } else if index == OPEN_FILE_PENALTY {
        p.open_file_penalty
    } else if index == SEMI_OPEN_FILE_PENALTY {
        p.semi_open_file_penalty
    } else if index == ISOLATED_PENALTY {
        p.isolated_penalty
    } else if index == DOUBLED_PENALTY {
        p.doubled_penalty
    } else if index == BACKWARD_PENALTY {
        p.backward_penalty
    } else if index == CONNECTED_BONUS {
        p.connected_bonus
    } else if index == ROOK_OPEN_FILE_BONUS {
        p.rook_open_file_bonus
    } else if index == ROOK_SEMI_FILE_BONUS {
        p.rook_semi_file_bonus
    } else if index == KNIGHT_OUTPOST_BONUS {
        p.knight_outpost_bonus
    } else if PASSED_PAWN_START <= index < PASSED_PAWN_START + 8 {
        p.passed_pawn_scores[index - PASSED_PAWN_START]
    } else {
        Score { mg: 0, eg: 0 }
    }
}

/// The piece-square tables of one piece kind.
fn pst_tables(piece: Piece) -> (r: ([i32; 64], [i32; 64]))
    ensures
        r == pst_tables_spec(piece),
{
    match piece {
        Piece::Pawn => (MG_PAWN_PST, EG_PAWN_PST),
        Piece::Knight => (MG_KNIGHT_PST, EG_KNIGHT_PST),
        Piece::Bishop => (MG_BISHOP_PST, EG_BISHOP_PST),
        Piece::Rook => (MG_ROOK_PST, EG_ROOK_PST),
        Piece::Queen => (MG_QUEEN_PST, EG_QUEEN_PST),
        Piece::King => (MG_KING_PST, EG_KING_PST),
    }
}

impl TunableParams {
    /// The built-in weights: material 82/94, 337/281, 365/297, 477/512, 1025/936; the bonuses
    /// and penalties below; and the piece-square tables above, copied square by square.
    pub fn default_params() -> (r: Self)
        ensures
            r.material[0] == (Score { mg: 82, eg: 94 }),
            r.material[4] == (Score { mg: 1025, eg: 936 }),
            r.bishop_pair_bonus == (Score { mg: 20, eg: 50 }),
            r.knight_outpost_bonus == (Score { mg: 30, eg: 20 }),
            forall|i: int| 0 <= i < 64 ==> #[trigger] r.psts[i] == (Score { mg: MG_PAWN_PST[i], eg: EG_PAWN_PST[i] }),
            forall|i: int| 320 <= i < 384 ==> #[trigger] r.psts[i] == (Score { mg: MG_KING_PST[i - 320], eg: EG_KING_PST[i - 320] }),
    {
        let mut psts = [Score::new(0, 0); 384];
        let pieces = Piece::all_pieces();
        let mut k: usize = 0;
        while k < 6
            invariant
                k <= 6,
                pieces@ == seq![Piece::Pawn, Piece::Knight, Piece::Bishop, Piece::Rook, Piece::Queen, Piece::King],
                forall|i: int| 0 <= i < 64 && k > 0 ==> #[trigger] psts[i] == (Score { mg: MG_PAWN_PST[i], eg: EG_PAWN_PST[i] }),
                forall|i: int| 320 <= i < 384 && k > 5 ==> #[trigger] psts[i] == (Score { mg: MG_KING_PST[i - 320], eg: EG_KING_PST[i - 320] }),
            decreases 6 - k,
        {
            let piece = pieces[k];
            let (mg, eg) = pst_tables(piece);
            let mut i: usize = 0;
            while i < 64
                invariant
                    i <= 64,
                    k < 6,
                    pieces@ == seq![Piece::Pawn, Piece::Knight, Piece::Bishop, Piece::Rook, Piece::Queen, Piece::King],
                    piece == pieces@[k as int],
                    (mg, eg) == pst_tables_spec(piece),
                    forall|j: int| 0 <= j < 64 && (k > 0 || j < i) ==> #[trigger] psts[j] == (Score { mg: MG_PAWN_PST[j], eg: EG_PAWN_PST[j] }),
                    forall|j: int| 320 <= j < 384 && (k > 5 || (k == 5 && j < 320 + i)) ==> #[trigger] psts[j] == (Score { mg: MG_KING_PST[j - 320], eg: EG_KING_PST[j - 320] }),
                decreases 64 - i,
            {
                psts[k * 64 + i] = Score::new(mg[i], eg[i]);
                i = i + 1;
            }
            k = k + 1;
        }
        TunableParams {
            material: [Score::new(82, 94), Score::new(337, 281), Score::new(365, 297), Score::new(477, 512), Score::new(1025, 936)],
            bishop_pair_bonus: Score::new(20, 50),
            castling_bonus: Score::new(30, 0),
            pawn_shield_full: Score::new(25, 0),
            pawn_shield_partial: Score::new(10, 0),
            open_file_penalty: Score::new(-20, 0),
            semi_open_file_penalty: Score::new(-10, 0),
            isolated_penalty: Score::new(-10, -20),
            doubled_penalty: Score::new(-10, -20),
            backward_penalty: Score::new(-5, -10),
            passed_pawn_scores: [
                Score::new(0, 0),
                Score::new(5, 10),
                Score::new(10, 20),
                Score::new(20, 40),
                Score::new(40, 80),
                Score::new(80, 160),
                Score::new(150, 300),
                Score::new(0, 0),
            ],
            connected_bonus: Score::new(5, 10),
            rook_open_file_bonus: Score::new(30, 15),
            rook_semi_file_bonus: Score::new(15, 10),
            knight_outpost_bonus: Score::new(30, 20),
            mobility: [Score::new(1, 2), Score::new(4, 4), Score::new(4, 4), Score::new(3, 6), Score::new(2, 4)],
            psts,
        }
    }

    /// The weight of feature `index`, zero for an index that names none.
    pub fn get_weight(&self, index: usize) -> (r: Score)
        ensures
            r == weight_of(*self, index as int),
    {
        if index >= PST_START {
            let offset = index - PST_START;
            if offset < 384 {
                return self.psts[offset];
            }
            return Score::new(0, 0);
        }
        if index == MATERIAL_PAWN {
            self.material[0]
        } else if index == MATERIAL_KNIGHT {
            self.material[1]
        } else if index == MATERIAL_BISHOP {
            self.material[2]
        } else if index == MATERIAL_ROOK {
            self.material[3]
        } else if index == MATERIAL_QUEEN {
            self.material[4]
        } else if index == BISHOP_PAIR_BONUS {
            self.bishop_pair_bonus
        } else if index == CASTLING_BONUS {
            self.castling_bonus
        } else if index == PAWN_SHIELD_FULL {
            self.pawn_shield_full
        } else if index == PAWN_SHIELD_PARTIAL {
            self.pawn_shield_partial
        } else if index == OPEN_FILE_PENALTY {
            self.open_file_penalty
        } else if index == SEMI_OPEN_FILE_PENALTY {
            self.semi_open_file_penalty
        } else if index == ISOLATED_PENALTY {
            self.isolated_penalty
        } else if index == DOUBLED_PENALTY {
            self.doubled_penalty
        } else if index == BACKWARD_PENALTY {
            self.backward_penalty
        } else if index == CONNECTED_BONUS {
            self.connected_bonus
        } else if index == ROOK_OPEN_FILE_BONUS {
            self.rook_open_file_bonus
        } else if index == ROOK_SEMI_FILE_BONUS {
            self.rook_semi_file_bonus
        } else if index == KNIGHT_OUTPOST_BONUS {
            self.knight_outpost_bonus
        } else if PASSED_PAWN_START <= index && index < PASSED_PAWN_START + 8 {
            self.passed_pawn_scores[index - PASSED_PAWN_START]
        } else {
            Score::new(0, 0)
        }
    }

    /// The per-move mobility weight of piece index `piece_idx`.
    pub fn get_mobility_weight(&self, piece_idx: usize) -> (r: Score)
        requires
            piece_idx < 5,
        ensures
            r == self.mobility[piece_idx as int],
    {
        self.mobility[piece_idx]
    }

    /// Whether every weight lies within the limit.
    pub fn check_limits(&self) -> (r: bool)
        ensures
            r == params_ok(*self),
    {
        let mut i: usize = 0;
        while i < 5
            invariant
                i <= 5,
                forall|j: int| 0 <= j < i ==> #[trigger] weight_ok(self.material[j]),
                forall|j: int| 0 <= j < i ==> #[trigger] weight_ok(self.mobility[j]),
            decreases 5 - i,
        {
            if !weight_in_limit(self.material[i]) || !weight_in_limit(self.mobility[i]) {
                return false;
            }
            i = i + 1;
        }
        let mut i: usize = 0;
        while i < 8
            invariant
                i <= 8,
                forall|j: int| 0 <= j < 5 ==> #[trigger] weight_ok(self.material[j]),
                forall|j: int| 0 <= j < 5 ==> #[trigger] weight_ok(self.mobility[j]),
                forall|j: int| 0 <= j < i ==> #[trigger] weight_ok(self.passed_pawn_scores[j]),
            decreases 8 - i,
        {
            if !weight_in_limit(self.passed_pawn_scores[i]) {
                return false;
            }
            i = i + 1;
        }
        let mut i: usize = 0;
        while i < 384
            invariant
                i <= 384,
                forall|j: int| 0 <= j < 5 ==> #[trigger] weight_ok(self.material[j]),
                forall|j: int| 0 <= j < 5 ==> #[trigger] weight_ok(self.mobility[j]),
                forall|j: int| 0 <= j < 8 ==> #[trigger] weight_ok(self.passed_pawn_scores[j]),
                forall|j: int| 0 <= j < i ==> #[trigger] weight_ok(self.psts[j]),
            decreases 384 - i,
        {
            if !weight_in_limit(self.psts[i]) {
                return false;
            }
            i = i + 1;
        }
        weight_in_limit(self.bishop_pair_bonus) && weight_in_limit(self.castling_bonus) && weight_in_limit(
            self.pawn_shield_full,
        ) && weight_in_limit(self.pawn_shield_partial) && weight_in_limit(self.open_file_penalty) && weight_in_limit(
            self.semi_open_file_penalty,
        ) && weight_in_limit(self.isolated_penalty) && weight_in_limit(self.doubled_penalty) && weight_in_limit(
            self.backward_penalty,
        ) && weight_in_limit(self.connected_bonus) && weight_in_limit(self.rook_open_file_bonus) && weight_in_limit(
            self.rook_semi_file_bonus,
        ) && weight_in_limit(self.knight_outpost_bonus)
    }
}

/// Whether both halves of `s` lie within the limit.
fn weight_in_limit(s: Score) -> (r: bool)
    ensures
        r == weight_ok(s),
{
    -WEIGHT_LIMIT <= s.mg && s.mg <= WEIGHT_LIMIT && -WEIGHT_LIMIT <= s.eg && s.eg <= WEIGHT_LIMIT
}

/// The piece-square tables of one piece kind.
pub open spec fn pst_tables_spec(piece: Piece) -> ([i32; 64], [i32; 64]) {
    match piece {
        Piece::Pawn => (MG_PAWN_PST, EG_PAWN_PST),
        Piece::Knight => (MG_KNIGHT_PST, EG_KNIGHT_PST),
        Piece::Bishop => (MG_BISHOP_PST, EG_BISHOP_PST),
        Piece::Rook => (MG_ROOK_PST, EG_ROOK_PST),
        Piece::Queen => (MG_QUEEN_PST, EG_QUEEN_PST),
        Piece::King => (MG_KING_PST, EG_KING_PST),
    }
}

} // verus!
