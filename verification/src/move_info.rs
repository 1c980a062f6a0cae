use vstd::prelude::*;
use crate::components::{Piece, Side, Square, CastlingRights};
use crate::text::push_char;

verus! {

/// Flag of a quiet move.
pub const QUIET: u16 = 0x0000;
/// Flag of a pawn's two-square push.
pub const DOUBLE_PAWN: u16 = 0x1000;
/// Flag of castling king side.
pub const KING_CASTLE: u16 = 0x2000;
/// Flag of castling queen side.
pub const QUEEN_CASTLE: u16 = 0x3000;
/// Flag of a capture.
pub const CAPTURE: u16 = 0x4000;
/// Flag of an en passant capture.
pub const EN_PASSANT: u16 = 0x5000;
/// Bit shared by all promotions.
pub const PROMO: u16 = 0x8000;
pub const PROMO_N: u16 = 0x8000;
pub const PROMO_B: u16 = 0x9000;
pub const PROMO_R: u16 = 0xA000;
pub const PROMO_Q: u16 = 0xB000;
pub const PROMO_NC: u16 = 0xC000;
pub const PROMO_BC: u16 = 0xD000;
pub const PROMO_RC: u16 = 0xE000;
pub const PROMO_QC: u16 = 0xF000;
/// The flag bits.
pub const FLAG_MASK: u16 = 0xF000;
/// The destination bits.
pub const TO_MASK: u16 = 0x0FC0;
/// The origin bits.
pub const FROM_MASK: u16 = 0x003F;

/// A move packed in 16 bits: origin in bits 0..6, destination in bits 6..12, flags in 12..16.
#[derive(Default, Clone, Copy, Debug, PartialEq, Eq, Structural, Hash, PartialOrd, Ord)]
pub struct Move(pub u16);

pub open spec fn mv_from(m: u16) -> int {
    (m & 0x003F) as int
}

pub open spec fn mv_to(m: u16) -> int {
    ((m & 0x0FC0) >> 6) as int
}

pub open spec fn mv_flags(m: u16) -> u16 {
    m & 0xF000
}

pub open spec fn flag_promo_piece(f: u16) -> Option<Piece> {
    if f == PROMO_N || f == PROMO_NC {
        Some(Piece::Knight)
    } else if f == PROMO_B || f == PROMO_BC {
        Some(Piece::Bishop)
    } else if f == PROMO_R || f == PROMO_RC {
        Some(Piece::Rook)
    } else if f == PROMO_Q || f == PROMO_QC {
        Some(Piece::Queen)
    } else {
        None
    }
}

pub open spec fn flag_promo_char(f: u16) -> Option<char> {
    if f == PROMO_N || f == PROMO_NC {
        Some('n')
    } else if f == PROMO_B || f == PROMO_BC {
        Some('b')
    } else if f == PROMO_R || f == PROMO_RC {
        Some('r')
    } else if f == PROMO_Q || f == PROMO_QC {
        Some('q')
    } else {
        None
    }
}

/// Lower-case name of a square, such as `e4`.
pub open spec fn coord_text(i: int) -> Seq<char> {
    seq![((i % 8) + 'a' as int) as char, ((i / 8) + '1' as int) as char]
}

/// UCI text of a move: origin, destination, and the promotion letter if any.
pub open spec fn uci_text(m: u16) -> Seq<char> {
    coord_text(mv_from(m)) + coord_text(mv_to(m)) + (match flag_promo_char(mv_flags(m)) {
        Some(c) => seq![c],
        None => Seq::empty(),
    })
}

/// Packing then unpacking gives back the parts.
pub proof fn lemma_move_roundtrip(from: u8, to: u8, flags: u16)
    requires
        from < 64,
        to < 64,
        flags & 0x0FFF == 0,
    ensures
        mv_from(((from as u16) | ((to as u16) << 6u16) | flags) as u16) == from,
        mv_to(((from as u16) | ((to as u16) << 6u16) | flags) as u16) == to,
        mv_flags(((from as u16) | ((to as u16) << 6u16) | flags) as u16) == flags,
{
    let f = from as u16;
    let t = to as u16;
    assert(f < 64 && t < 64 && flags & 0x0FFFu16 == 0 ==> ((f | (t << 6u16) | flags) & 0x003Fu16) == f
        && (((f | (t << 6u16) | flags) & 0x0FC0u16) >> 6u16) == t
        && ((f | (t << 6u16) | flags) & 0xF000u16) == flags) by (bit_vector);
}

pub proof fn lemma_move_fields_bounded(m: u16)
    ensures
        0 <= mv_from(m) < 64,
        0 <= mv_to(m) < 64,
{
    assert(m & 0x003Fu16 < 64 && (m & 0x0FC0u16) >> 6u16 < 64) by (bit_vector);
}

impl Move {
    /// Packs origin, destination and flags.
    pub fn new(from: u8, to: u8, flags: u16) -> (r: Self)
        ensures
            r.0 == (from as u16) | ((to as u16) << 6u16) | flags,
            from < 64 && to < 64 && flags % 4096 == 0 ==> mv_from(r.0) == from && mv_to(r.0) == to
                && mv_flags(r.0) == flags,
    {
        proof {
            assert(flags % 4096 == 0 ==> flags & 0x0FFFu16 == 0) by (bit_vector);
            if from < 64 && to < 64 && flags % 4096 == 0 {
                lemma_move_roundtrip(from, to, flags);
            }
        }
        Self((from as u16) | ((to as u16) << 6u16) | flags)
    }

    /// The origin square's index.
    pub fn from_idx(&self) -> (r: u8)
        ensures
            r == mv_from(self.0),
            r < 64,
    {
        proof {
            lemma_move_fields_bounded(self.0);
        }
        (self.0 & FROM_MASK) as u8
    }

    /// The destination square's index.
    pub fn to_idx(&self) -> (r: u8)
        ensures
            r == mv_to(self.0),
            r < 64,
    {
        proof {
            lemma_move_fields_bounded(self.0);
        }
        ((self.0 & TO_MASK) >> 6) as u8
    }

    /// The origin square.
    pub fn from_sq(&self) -> (r: Square)
        ensures
            r.0 == mv_from(self.0),
            r.0 < 64,
    {
        proof {
            lemma_move_fields_bounded(self.0);
        }
        Square((self.0 & FROM_MASK) as usize)
    }

    /// The destination square.
    pub fn to_sq(&self) -> (r: Square)
        ensures
            r.0 == mv_to(self.0),
            r.0 < 64,
    {
        proof {
            lemma_move_fields_bounded(self.0);
        }
        Square(((self.0 & TO_MASK) >> 6) as usize)
    }

    /// The flag bits.
    pub fn flags(&self) -> (r: u16)
        ensures
            r == mv_flags(self.0),
    {
        self.0 & FLAG_MASK
    }

    /// Captures, en passant and capturing promotions.
    pub fn is_capture(&self) -> (r: bool)
        ensures
            r == (self.0 & CAPTURE != 0),
    {
        (self.0 & CAPTURE) != 0
    }

    /// All promotions.
    pub fn is_promotion(&self) -> (r: bool)
        ensures
            r == (self.0 & PROMO != 0),
    {
        (self.0 & PROMO) != 0
    }

    pub fn is_quiet(&self) -> (r: bool)
        ensures
            r == (mv_flags(self.0) == QUIET),
    {
        self.flags() == QUIET
    }

    /// Castling on either wing.
    pub fn is_castling(&self) -> (r: bool)
        ensures
            r == (mv_flags(self.0) == KING_CASTLE || mv_flags(self.0) == QUEEN_CASTLE),
    {
        let f = self.flags();
        f == KING_CASTLE || f == QUEEN_CASTLE
    }

    pub fn is_enpassant(&self) -> (r: bool)
        ensures
            r == (mv_flags(self.0) == EN_PASSANT),
    {
        self.flags() == EN_PASSANT
    }

    /// The piece a promotion turns into.
    pub fn promoted_piece(&self) -> (r: Option<Piece>)
        ensures
            r == flag_promo_piece(mv_flags(self.0)),
    {
        let f = self.flags();
        if f == PROMO_N || f == PROMO_NC {
            Some(Piece::Knight)
        } else if f == PROMO_B || f == PROMO_BC {
            Some(Piece::Bishop)
        } else if f == PROMO_R || f == PROMO_RC {
            Some(Piece::Rook)
        } else if f == PROMO_Q || f == PROMO_QC {
            Some(Piece::Queen)
        } else {
            None
        }
    }

    /// The letter of the piece a promotion turns into.
    pub fn promoted_piece_char(&self) -> (r: Option<char>)
        ensures
            r == flag_promo_char(mv_flags(self.0)),
    {
        let f = self.flags();
        if f == PROMO_N || f == PROMO_NC {
            Some('n')
        } else if f == PROMO_B || f == PROMO_BC {
            Some('b')
        } else if f == PROMO_R || f == PROMO_RC {
            Some('r')
        } else if f == PROMO_Q || f == PROMO_QC {
            Some('q')
        } else {
            None
        }
    }

    /// The move in UCI notation, such as `e2e4` or `e7e8q`.
    pub fn uci(&self) -> (r: String)
        ensures
            r@ == uci_text(self.0),
    {
        let mut s = Move::square_to_coord(self.from_idx());
        let t = Move::square_to_coord(self.to_idx());
        s.append(t.as_str());
        match self.promoted_piece_char() {
            Some(c) => push_char(&mut s, c),
            None => {},
        }
        proof {
            assert(s@ =~= uci_text(self.0));
        }
        s
    }

    /// Lower-case name of square `idx`, such as `e2`.
    pub fn square_to_coord(idx: u8) -> (r: String)
        requires
            idx < 64,
        ensures
            r@ == coord_text(idx as int),
    {
        let mut s = String::new();
        push_char(&mut s, ((idx % 8) + 97u8) as char);
        push_char(&mut s, ((idx / 8) + 49u8) as char);
        proof {
            assert(s@ =~= coord_text(idx as int));
        }
        s
    }
}

/// What a move changed, enough to take it back.
#[derive(Default, Debug, Clone, Copy, PartialEq, Eq, Structural, Hash)]
pub struct MoveInfo {
    pub from: Square,
    pub to: Square,
    /// Side that made the move.
    pub stm: Side,
    pub piece_moved: Piece,
    pub captured_piece: Option<Piece>,
    pub promotion: Option<Piece>,
    pub is_castling: bool,
    pub is_en_passant: bool,
    /// Castling rights before the move.
    pub castle_rights: CastlingRights,
    /// En passant square before the move.
    pub enpassant_square: Option<Square>,
    /// Halfmove clock before the move.
    pub halfmove_clock: u8,
    /// Hash before the move.
    pub zobrist_hash: u64,
}

impl MoveInfo {
    /// A record of a move between two squares with every other field at its default.
    pub fn new(from: Square, to: Square) -> (r: Self)
        ensures
            r.from == from,
            r.to == to,
            r.stm == Side::White,
            r.piece_moved == Piece::Pawn,
            r.captured_piece is None,
            r.promotion is None,
            !r.is_castling,
            !r.is_en_passant,
            r.castle_rights.0 == 0,
            r.enpassant_square is None,
            r.halfmove_clock == 0,
            r.zobrist_hash == 0,
    {
        Self {
            from,
            to,
            stm: Side::White,
            piece_moved: Piece::Pawn,
            captured_piece: None,
            promotion: None,
            is_castling: false,
            is_en_passant: false,
            castle_rights: CastlingRights(0),
            enpassant_square: None,
            halfmove_clock: 0,
            zobrist_hash: 0,
        }
    }
}

} // verus!
