use vstd::prelude::*;
use crate::score::Score;
use crate::text::push_char;

verus! {

/// A side of the game.
#[derive(Default, Debug, Hash, PartialEq, Eq, Structural, Clone, Copy)]
pub enum Side {
    #[default]
    White,
    Black,
}

impl Side {
    pub open spec fn spec_index(&self) -> usize {
        match self {
            Side::White => 0,
            Side::Black => 1,
        }
    }

    pub open spec fn spec_flip(&self) -> Side {
        match self {
            Side::White => Side::Black,
            Side::Black => Side::White,
        }
    }

    /// The side with the given index (0 white, 1 black).
    pub open spec fn from_index(i: int) -> Side {
        if i == 0 {
            Side::White
        } else {
            Side::Black
        }
    }

    /// Index of white.
    pub fn white() -> (r: usize)
        ensures
            r == 0,
    {
        Side::White.index()
    }

    /// Index of black.
    pub fn black() -> (r: usize)
        ensures
            r == 1,
    {
        Side::Black.index()
    }

    /// The other side.
    #[verifier::when_used_as_spec(spec_flip)]
    pub fn flip(&self) -> (r: Side)
        ensures
            r == self.spec_flip(),
    {
        match self {
            Side::White => Side::Black,
            Side::Black => Side::White,
        }
    }

    /// 0 for white, 1 for black.
    #[verifier::when_used_as_spec(spec_index)]
    pub fn index(&self) -> (r: usize)
        ensures
            r == self.spec_index(),
    {
        match self {
            Side::White => 0,
            Side::Black => 1,
        }
    }

    /// The side's name.
    pub fn to_string(&self) -> (r: String)
        ensures
            r@ == (match self {
                Side::White => "White"@,
                Side::Black => "Black"@,
            }),
    {
        match self {
            Side::White => String::from_str("White"),
            Side::Black => String::from_str("Black"),
        }
    }
}

/// A kind of chess piece.
#[derive(Default, PartialEq, Eq, Structural, Debug, Clone, Copy, Hash)]
pub enum Piece {
    #[default]
    Pawn,
    Knight,
    Bishop,
    Rook,
    Queen,
    King,
}

/// FEN letters of the pieces, white upper case, black lower case, in piece index order.
pub open spec fn piece_char(side: Side, piece: Piece) -> char {
    let upper = match piece {
        Piece::Pawn => 'P',
        Piece::Knight => 'N',
        Piece::Bishop => 'B',
        Piece::Rook => 'R',
        Piece::Queen => 'Q',
        Piece::King => 'K',
    };
    let lower = match piece {
        Piece::Pawn => 'p',
        Piece::Knight => 'n',
        Piece::Bishop => 'b',
        Piece::Rook => 'r',
        Piece::Queen => 'q',
        Piece::King => 'k',
    };
    if side == Side::White {
        upper
    } else {
        lower
    }
}

impl Piece {
    pub open spec fn spec_index(&self) -> usize {
        match self {
            Piece::Pawn => 0,
            Piece::Knight => 1,
            Piece::Bishop => 2,
            Piece::Rook => 3,
            Piece::Queen => 4,
            Piece::King => 5,
        }
    }

    /// The piece kind with the given index.
    pub open spec fn from_index(i: int) -> Piece {
        if i == 0 {
            Piece::Pawn
        } else if i == 1 {
            Piece::Knight
        } else if i == 2 {
            Piece::Bishop
        } else if i == 3 {
            Piece::Rook
        } else if i == 4 {
            Piece::Queen
        } else {
            Piece::King
        }
    }

    pub open spec fn spec_phase(&self) -> i32 {
        match self {
            Piece::Pawn => 0,
            Piece::Bishop => 1,
            Piece::Knight => 1,
            Piece::Rook => 2,
            Piece::Queen => 4,
            Piece::King => 0,
        }
    }

    pub open spec fn spec_score(&self) -> Score {
        match self {
            Piece::Pawn => Score { mg: 82, eg: 94 },
            Piece::Knight => Score { mg: 337, eg: 281 },
            Piece::Bishop => Score { mg: 365, eg: 297 },
            Piece::Rook => Score { mg: 477, eg: 512 },
            Piece::Queen => Score { mg: 1025, eg: 936 },
            Piece::King => Score { mg: 20_000, eg: 20_000 },
        }
    }

    pub open spec fn spec_victim_score(&self) -> i32 {
        match self {
            Piece::Pawn => 100,
            Piece::Knight => 325,
            Piece::Bishop => 325,
            Piece::Rook => 500,
            Piece::Queen => 1000,
            Piece::King => 20_000,
        }
    }

    /// Every piece kind with every side, white first, in piece index order.
    pub fn all() -> (r: Vec<(Piece, Side)>)
        ensures
            r@.len() == 12,
            forall|i: int|
                0 <= i < 12 ==> #[trigger] r@[i] == (Piece::from_index(i % 6), Side::from_index(i / 6)),
    {
        let mut v: Vec<(Piece, Side)> = Vec::new();
        let sides = [Side::White, Side::Black];
        let mut s: usize = 0;
        while s < 2
            invariant
                s <= 2,
                sides@ == seq![Side::White, Side::Black],
                v@.len() == s * 6,
                forall|i: int|
                    0 <= i < v@.len() ==> #[trigger] v@[i] == (Piece::from_index(i % 6), Side::from_index(i / 6)),
            decreases 2 - s,
        {
            let pieces = Piece::all_pieces();
            let mut p: usize = 0;
            while p < 6
                invariant
                    s < 2,
                    p <= 6,
                    sides@ == seq![Side::White, Side::Black],
                    v@.len() == s * 6 + p,
                    forall|i: int| 0 <= i < 6 ==> #[trigger] pieces@[i] == Piece::from_index(i),
                    forall|i: int|
                        0 <= i < v@.len() ==> #[trigger] v@[i] == (Piece::from_index(i % 6), Side::from_index(i / 6)),
                decreases 6 - p,
            {
                v.push((pieces[p], sides[s]));
                proof {
                    let k = (s * 6 + p) as int;
                    assert(k % 6 == p as int);
                    assert(k / 6 == s as int);
                }
                p = p + 1;
            }
            s = s + 1;
        }
        v
    }

    pub fn king() -> (r: usize)
        ensures
            r == 5,
    {
        Piece::King.index()
    }

    pub fn queen() -> (r: usize)
        ensures
            r == 4,
    {
        Piece::Queen.index()
    }

    pub fn rook() -> (r: usize)
        ensures
            r == 3,
    {
        Piece::Rook.index()
    }

    pub fn bishop() -> (r: usize)
        ensures
            r == 2,
    {
        Piece::Bishop.index()
    }

    pub fn knight() -> (r: usize)
        ensures
            r == 1,
    {
        Piece::Knight.index()
    }

    pub fn pawn() -> (r: usize)
        ensures
            r == 0,
    {
        Piece::Pawn.index()
    }

    /// All piece kinds in index order.
    pub fn all_pieces() -> (r: [Piece; 6])
        ensures
            forall|i: int| 0 <= i < 6 ==> #[trigger] r@[i] == Piece::from_index(i),
    {
        [Piece::Pawn, Piece::Knight, Piece::Bishop, Piece::Rook, Piece::Queen, Piece::King]
    }

    /// The piece kinds a side can have: all of them, in index order.
    pub fn colored_pieces(_side: Side) -> (r: [Piece; 6])
        ensures
            forall|i: int| 0 <= i < 6 ==> #[trigger] r@[i] == Piece::from_index(i),
    {
        Piece::all_pieces()
    }

    /// The chess symbol of the piece: the filled glyph for white, the outlined one for black.
    pub fn icon(&self, stm: Side) -> (r: char)
        ensures
            r == piece_icon(*self, stm),
    {
        match self {
            Piece::Pawn => if stm == Side::White { '\u{265F}' } else { '\u{2659}' },
            Piece::Bishop => if stm == Side::White { '\u{265D}' } else { '\u{2657}' },
            Piece::Knight => if stm == Side::White { '\u{265E}' } else { '\u{2658}' },
            Piece::Rook => if stm == Side::White { '\u{265C}' } else { '\u{2656}' },
            Piece::Queen => if stm == Side::White { '\u{265B}' } else { '\u{2655}' },
            Piece::King => if stm == Side::White { '\u{265A}' } else { '\u{2654}' },
        }
    }

    /// Weight of the piece in the game phase.
    #[verifier::when_used_as_spec(spec_phase)]
    pub fn phase(&self) -> (r: i32)
        ensures
            r == self.spec_phase(),
    {
        match self {
            Piece::Pawn => 0,
            Piece::Bishop => 1,
            Piece::Knight => 1,
            Piece::Rook => 2,
            Piece::Queen => 4,
            Piece::King => 0,
        }
    }

    /// Material value of the piece.
    #[verifier::when_used_as_spec(spec_score)]
    pub fn score(&self) -> (r: Score)
        ensures
            r == self.spec_score(),
    {
        match self {
            Piece::Pawn => Score::new(82, 94),
            Piece::Knight => Score::new(337, 281),
            Piece::Bishop => Score::new(365, 297),
            Piece::Rook => Score::new(477, 512),
            Piece::Queen => Score::new(1025, 936),
            Piece::King => Score::new(20_000, 20_000),
        }
    }

    /// Position of the piece kind in tables: pawn 0 up to king 5.
    #[verifier::when_used_as_spec(spec_index)]
    pub fn index(&self) -> (r: usize)
        ensures
            r == self.spec_index(),
    {
        match self {
            Piece::Pawn => 0,
            Piece::Knight => 1,
            Piece::Bishop => 2,
            Piece::Rook => 3,
            Piece::Queen => 4,
            Piece::King => 5,
        }
    }

    /// Value of the piece when captured, for exchange evaluation.
    #[verifier::when_used_as_spec(spec_victim_score)]
    pub fn victim_score(&self) -> (r: i32)
        ensures
            r == self.spec_victim_score(),
    {
        match self {
            Piece::Pawn => 100,
            Piece::Knight => 325,
            Piece::Bishop => 325,
            Piece::Rook => 500,
            Piece::Queen => 1000,
            Piece::King => 20_000,
        }
    }

    /// The piece's name.
    pub fn to_string(&self) -> (r: String)
        ensures
            r@ == (match self {
                Piece::Pawn => "Pawn"@,
                Piece::Knight => "Knight"@,
                Piece::Bishop => "Bishop"@,
                Piece::Rook => "Rook"@,
                Piece::Queen => "Queen"@,
                Piece::King => "King"@,
            }),
    {
        match self {
            Piece::Pawn => String::from_str("Pawn"),
            Piece::Knight => String::from_str("Knight"),
            Piece::Bishop => String::from_str("Bishop"),
            Piece::Rook => String::from_str("Rook"),
            Piece::Queen => String::from_str("Queen"),
            Piece::King => String::from_str("King"),
        }
    }
}

pub open spec fn piece_icon(p: Piece, stm: Side) -> char {
    let w = stm == Side::White;
    match p {
        Piece::Pawn => if w { '\u{265F}' } else { '\u{2659}' },
        Piece::Bishop => if w { '\u{265D}' } else { '\u{2657}' },
        Piece::Knight => if w { '\u{265E}' } else { '\u{2658}' },
        Piece::Rook => if w { '\u{265C}' } else { '\u{2656}' },
        Piece::Queen => if w { '\u{265B}' } else { '\u{2655}' },
        Piece::King => if w { '\u{265A}' } else { '\u{2654}' },
    }
}

/// A piece kind together with its side.
#[derive(Debug, Default, Hash, PartialEq, Eq, Structural, Clone, Copy)]
pub struct PieceInfo {
    pub piece: Piece,
    pub side: Side,
}

impl PieceInfo {
    pub fn new(piece: Piece, side: Side) -> (r: Self)
        ensures
            r == (PieceInfo { piece, side }),
    {
        Self { piece, side }
    }
}

/// White may castle king side.
pub const WHITE_00: u8 = 0b00000001;
/// White may castle queen side.
pub const WHITE_000: u8 = 0b00000010;
/// Black may castle king side.
pub const BLACK_00: u8 = 0b00000100;
/// Black may castle queen side.
pub const BLACK_000: u8 = 0b00001000;
/// White's king has castled.
pub const WHITE_CASTLED: u8 = 0b00010000;
/// Black's king has castled.
pub const BLACK_CASTLED: u8 = 0b00100000;
/// No right at all.
pub const NO_CASTLING: u8 = 0;
/// The four right bits.
pub const RIGHTS_MASK: u8 = 0b00001111;

/// Castling rights in the bits of a byte:
/// bit 0 white king side, bit 1 white queen side, bit 2 black king side,
/// bit 3 black queen side, bit 4 white has castled, bit 5 black has castled.
#[derive(Default, Debug, Hash, PartialEq, Eq, Structural, Clone, Copy)]
pub struct CastlingRights(pub u8);

impl CastlingRights {
    /// Adds the rights in `rights`.
    pub fn add_right(&mut self, rights: CastlingRights)
        ensures
            final(self).0 == old(self).0 | rights.0,
    {
        self.0 = self.0 | rights.0;
    }

    /// All four rights.
    pub fn all() -> (r: Self)
        ensures
            r.0 == (BLACK_00 | WHITE_00 | BLACK_000 | WHITE_000),
    {
        CastlingRights(BLACK_00 | WHITE_00 | BLACK_000 | WHITE_000)
    }

    /// True when any of the bits of `rights` is held.
    pub fn allows(&self, rights: CastlingRights) -> (r: bool)
        ensures
            r == (self.0 & rights.0 != 0),
    {
        self.0 & rights.0 != NO_CASTLING
    }

    /// The four right bits alone.
    pub fn get_rights(&self) -> (r: u8)
        ensures
            r == self.0 & 15,
            r < 16,
    {
        let x = self.0;
        proof {
            assert(x & 15u8 < 16u8) by (bit_vector);
        }
        self.0 & RIGHTS_MASK
    }

    /// Whether `side` may castle on the given wing.
    pub fn can_castle(&self, side: Side, kingside: bool) -> (r: bool)
        ensures
            r == (self.0 & castle_bit(side, kingside) != 0),
    {
        match (side, kingside) {
            (Side::White, true) => self.allows(CastlingRights(WHITE_00)),
            (Side::White, false) => self.allows(CastlingRights(WHITE_000)),
            (Side::Black, true) => self.allows(CastlingRights(BLACK_00)),
            (Side::Black, false) => self.allows(CastlingRights(BLACK_000)),
        }
    }

    /// Marks `side` as castled and drops both of its rights.
    pub fn set_castled(&mut self, side: Side)
        ensures
            final(self).0 == spec_set_castled(old(self).0, side),
    {
        match side {
            Side::White => {
                self.0 = self.0 | WHITE_CASTLED;
                self.remove_right(&CastlingRights(WHITE_00 | WHITE_000));
            },
            Side::Black => {
                self.0 = self.0 | BLACK_CASTLED;
                self.remove_right(&CastlingRights(BLACK_00 | BLACK_000));
            },
        }
    }

    /// Whether `side` has castled.
    pub fn has_castled(&self, side: Side) -> (r: bool)
        ensures
            r == (self.0 & (if side == Side::White { WHITE_CASTLED } else { BLACK_CASTLED }) != 0),
    {
        match side {
            Side::White => self.0 & WHITE_CASTLED != 0,
            Side::Black => self.0 & BLACK_CASTLED != 0,
        }
    }

    /// Clears the castled mark of `side`.
    pub fn unset_castled(&mut self, side: Side)
        ensures
            final(self).0 == old(self).0 & !(if side == Side::White { WHITE_CASTLED } else { BLACK_CASTLED }),
    {
        match side {
            Side::White => self.0 = self.0 & !WHITE_CASTLED,
            Side::Black => self.0 = self.0 & !BLACK_CASTLED,
        }
    }

    /// No rights.
    pub fn empty() -> (r: Self)
        ensures
            r.0 == 0,
    {
        Self(NO_CASTLING)
    }

    pub fn is_empty(&self) -> (r: bool)
        ensures
            r == (self.0 == 0),
    {
        self.0 == 0
    }

    /// Both king side rights.
    pub fn king_side() -> (r: Self)
        ensures
            r.0 == BLACK_00 | WHITE_00,
    {
        Self(BLACK_00 | WHITE_00)
    }

    /// Both queen side rights.
    pub fn queen_side() -> (r: Self)
        ensures
            r.0 == BLACK_000 | WHITE_000,
    {
        Self(BLACK_000 | WHITE_000)
    }

    /// Drops the bits of `rights`.
    pub fn remove_right(&mut self, rights: &CastlingRights)
        ensures
            final(self).0 == old(self).0 & !rights.0,
    {
        self.0 = self.0 & !rights.0
    }

    /// Both white rights.
    pub fn white_only() -> (r: Self)
        ensures
            r.0 == WHITE_00 | WHITE_000,
    {
        Self(WHITE_00 | WHITE_000)
    }

    /// Both black rights.
    pub fn black_only() -> (r: Self)
        ensures
            r.0 == BLACK_00 | BLACK_000,
    {
        Self(BLACK_00 | BLACK_000)
    }

    /// Union of two sets of rights.
    pub fn bitor(self, rhs: CastlingRights) -> (r: CastlingRights)
        ensures
            r.0 == self.0 | rhs.0,
    {
        Self(self.0 | rhs.0)
    }

    /// The FEN text of the rights: the letters `K`, `Q`, `k`, `q` of the rights held,
    /// and `-` when the byte is zero.
    pub fn to_string(&self) -> (r: String)
        ensures
            r@ == castling_text(self.0),
    {
        let mut s = String::new();
        if self.allows(CastlingRights(WHITE_00)) {
            push_char(&mut s, 'K');
        }
        if self.allows(CastlingRights(WHITE_000)) {
            push_char(&mut s, 'Q');
        }
        if self.allows(CastlingRights(BLACK_00)) {
            push_char(&mut s, 'k');
        }
        if self.allows(CastlingRights(BLACK_000)) {
            push_char(&mut s, 'q');
        }
        if self.is_empty() {
            push_char(&mut s, '-');
        }
        proof {
            assert(s@ =~= castling_text(self.0));
        }
        s
    }
}

/// The right bit of `side` on the given wing.
pub open spec fn castle_bit(side: Side, kingside: bool) -> u8 {
    match (side, kingside) {
        (Side::White, true) => WHITE_00,
        (Side::White, false) => WHITE_000,
        (Side::Black, true) => BLACK_00,
        (Side::Black, false) => BLACK_000,
    }
}

pub open spec fn spec_set_castled(c: u8, side: Side) -> u8 {
    if side == Side::White {
        (c | WHITE_CASTLED) & !(WHITE_00 | WHITE_000)
    } else {
        (c | BLACK_CASTLED) & !(BLACK_00 | BLACK_000)
    }
}

pub open spec fn opt_char(b: bool, c: char) -> Seq<char> {
    if b {
        seq![c]
    } else {
        Seq::empty()
    }
}

pub open spec fn castling_text(c: u8) -> Seq<char> {
    opt_char(c & WHITE_00 != 0, 'K') + opt_char(c & WHITE_000 != 0, 'Q') + opt_char(c & BLACK_00 != 0, 'k')
        + opt_char(c & BLACK_000 != 0, 'q') + opt_char(c == 0, '-')
}

/// A square of the board, `0` for A1 up to `63` for H8, rank by rank.
#[derive(Default, Debug, Hash, PartialEq, Eq, Structural, Clone, Copy)]
pub struct Square(pub usize);

/// Name of a square: file letter `A`..`H` then rank digit `1`..`8`.
pub open spec fn square_name(i: int) -> Seq<char> {
    seq![((i % 8) + 'A' as int) as char, ((i / 8) + '1' as int) as char]
}

impl Square {
    pub open spec fn spec_index(&self) -> usize {
        self.0
    }

    /// The square with index `index`, or `None` when it is 64 or more.
    pub fn new(index: usize) -> (r: Option<Self>)
        ensures
            index < 64 ==> r == Some(Square(index)),
            index >= 64 ==> r is None,
    {
        if index < 64 {
            return Some(Self(index));
        }
        None
    }

    /// The square on `file` and `rank` (both 0-based), or `None` when either is 8 or more.
    pub fn from_coords(file: usize, rank: usize) -> (r: Option<Self>)
        ensures
            file < 8 && rank < 8 ==> r == Some(Square((rank * 8 + file) as usize)),
            !(file < 8 && rank < 8) ==> r is None,
    {
        if file < 8 && rank < 8 {
            return Some(Square(rank * 8 + file));
        }
        None
    }

    /// The en passant square named by a file letter and a rank digit; the file is read
    /// case-insensitively, the rank must be `3` or `6`.
    pub fn enpassant_from_index(file: char, rank: char) -> (r: Result<Self, SquareError>)
        ensures
            r matches Ok(sq) <==> (('a' <= lower_char(file) <= 'h') && (rank == '3' || rank == '6')),
            r matches Ok(sq) ==> sq.0 == (if rank == '3' { 2int } else { 5int }) * 8 + (lower_char(file) as int - 'a' as int),
            r matches Err(e) ==> (e == SquareError::InvalidFile <==> !('a' <= lower_char(file) <= 'h')),
    {
        let file = to_ascii_lower(file);
        if !('a' <= file && file <= 'h') {
            return Err(SquareError::InvalidFile);
        }
        if rank != '3' && rank != '6' {
            return Err(SquareError::InvalidRank);
        }
        let col_index = (file as u32 - 'a' as u32) as usize;
        let row_index: usize = if rank == '3' { 2 } else { 5 };
        let square_index = row_index * 8 + col_index;
        Ok(Square(square_index))
    }

    /// Rank and file, both 0-based.
    pub fn coords(&self) -> (r: (usize, usize))
        ensures
            r == (self.0 / 8, self.0 % 8),
    {
        let rank = self.0 / 8;
        let file = self.0 % 8;
        (rank, file)
    }

    /// The square `dir` steps away by index.
    pub fn get_neighbor(&self, dir: crate::direction::Direction) -> (r: Square)
        requires
            0 <= self.0 + dir.0 < 64,
        ensures
            r.0 == self.0 + dir.0,
    {
        Self((self.0 as i64 + dir.value() as i64) as usize)
    }

    /// 0-based rank.
    pub fn row(&self) -> (r: usize)
        ensures
            r == self.0 / 8,
    {
        self.0 / 8
    }

    /// 0-based file.
    pub fn col(&self) -> (r: usize)
        ensures
            r == self.0 % 8,
    {
        self.0 % 8
    }

    /// 1-based rank.
    pub fn rank(&self) -> (r: usize)
        requires
            self.0 < 64,
        ensures
            r == self.0 / 8 + 1,
    {
        self.0 / 8 + 1
    }

    /// 1-based file.
    pub fn file(&self) -> (r: usize)
        ensures
            r == self.0 % 8 + 1,
    {
        self.0 % 8 + 1
    }

    #[verifier::when_used_as_spec(spec_index)]
    pub fn index(&self) -> (r: usize)
        ensures
            r == self.0,
    {
        self.0
    }

    /// Reads a square name: a file letter and a rank digit, in either case.
    pub fn from_str(s: &str) -> (r: Result<Self, SquareError>)
        ensures
            r matches Ok(sq) <==> square_text_ok(s@),
            r matches Ok(sq) ==> sq.0 == square_of_text(s@) && sq.0 < 64,
    {
        let n = s.unicode_len();
        if n != 2 {
            return Err(SquareError::BadLength);
        }
        let letter = to_ascii_upper(s.get_char(0));
        let num = s.get_char(1);
        if !('A' <= letter && letter <= 'H') {
            return Err(SquareError::InvalidFile);
        }
        if !('1' <= num && num <= '8') {
            return Err(SquareError::InvalidRank);
        }
        let file = (letter as u32 - 'A' as u32) as usize;
        let rank = (num as u32 - '1' as u32) as usize;
        Ok(Square(8 * rank + file))
    }

    /// The name of the square, such as `E4`.
    pub fn to_string(&self) -> (r: String)
        requires
            self.0 < 64,
        ensures
            r@ == square_name(self.0 as int),
    {
        let mut s = String::new();
        let file = ((self.0 % 8) as u8 + 65u8) as char;
        let rank = ((self.0 / 8) as u8 + 49u8) as char;
        push_char(&mut s, file);
        push_char(&mut s, rank);
        proof {
            assert(s@ =~= square_name(self.0 as int));
        }
        s
    }
}

/// A two-character square name that [`Square::from_str`] accepts.
pub open spec fn square_text_ok(s: Seq<char>) -> bool {
    &&& s.len() == 2
    &&& 'A' <= upper_char(s[0]) <= 'H'
    &&& '1' <= s[1] <= '8'
}

pub open spec fn square_of_text(s: Seq<char>) -> int {
    8 * (s[1] as int - '1' as int) + (upper_char(s[0]) as int - 'A' as int)
}

/// Errors in reading a square.
#[derive(Debug, PartialEq, Eq, Structural, Clone, Copy)]
pub enum SquareError {
    BadLength,
    InvalidFile,
    InvalidRank,
}

pub open spec fn lower_char(c: char) -> char {
    if 'A' <= c <= 'Z' {
        ((c as int) + 32) as char
    } else {
        c
    }
}

pub open spec fn upper_char(c: char) -> char {
    if 'a' <= c <= 'z' {
        ((c as int) - 32) as char
    } else {
        c
    }
}

/// The lower-case form of an ASCII letter; other characters are unchanged.
pub fn to_ascii_lower(c: char) -> (r: char)
    ensures
        r == lower_char(c),
{
    if 'A' <= c && c <= 'Z' {
        ((c as u8) + 32) as char
    } else {
        c
    }
}

/// The upper-case form of an ASCII letter; other characters are unchanged.
pub fn to_ascii_upper(c: char) -> (r: char)
    ensures
        r == upper_char(c),
{
    if 'a' <= c && c <= 'z' {
        ((c as u8) - 32) as char
    } else {
        c
    }
}

} // verus!
