use vstd::prelude::*;
use crate::board::{Board, make_no_panic, make_post, in_check_spec};
use crate::board_spec::{make_ok, ep_victim};
use crate::components::{Piece, PieceInfo, Side, Square, square_text_ok, square_of_text};
use crate::move_gen::{promo_rank, grows_weak, board_fits, plain_flag, pawns_placed_ok};
use crate::move_info::{
    Move, MoveInfo, mv_from, mv_to, mv_flags, QUIET, DOUBLE_PAWN, KING_CASTLE, QUEEN_CASTLE, CAPTURE,
    EN_PASSANT, PROMO_N, PROMO_B, PROMO_R, PROMO_Q, PROMO_NC, PROMO_BC, PROMO_RC, PROMO_QC,
};
use crate::move_buffer::MoveBuffer;
use crate::text::chars_of;
use crate::zobrist::ZobristKeys;

verus! {

/// Why a move in text was refused.
#[derive(Debug, PartialEq, Eq, Structural, Clone, Copy)]
pub enum NotationError {
    /// The text has the wrong length or shape.
    BadFormat,
    /// A square name does not read.
    BadSquare,
    /// No piece stands on the origin square.
    NoPiece,
    /// A promotion lacks its piece letter or names a wrong one, or a pawn names a promotion
    /// off the last rank.
    BadPromotion,
    /// The move is not legal here.
    Illegal,
    /// More than one legal move fits the text.
    Ambiguous,
}

/// The promotion flag for piece letter `c`, capturing or not.
pub open spec fn promo_flag_of(c: char, cap: bool) -> Option<u16> {
    if c == 'q' {
        Some(if cap { PROMO_QC } else { PROMO_Q })
    } else if c == 'r' {
        Some(if cap { PROMO_RC } else { PROMO_R })
    } else if c == 'b' {
        Some(if cap { PROMO_BC } else { PROMO_B })
    } else if c == 'n' {
        Some(if cap { PROMO_NC } else { PROMO_N })
    } else {
        None
    }
}

pub open spec fn iabs(x: int) -> int {
    if x < 0 {
        -x
    } else {
        x
    }
}

/// The flag a UCI move from `from` to `to` gets on `board`, the fifth character `pc` naming a
/// promotion: `None` when the promotion part is wrong.
pub open spec fn uci_flags(board: Board, from: int, to: int, pc: Option<char>) -> Option<u16> {
    let mb = board.positions.mb();
    let piece = mb[from]->0.piece;
    let cap = mb[to] is Some;
    if piece == Piece::Pawn && to / 8 == promo_rank(board.stm) {
        match pc {
            Some(c) => promo_flag_of(c, cap),
            None => None,
        }
    } else if piece == Piece::Pawn && pc is Some && promo_flag_of(pc->0, false) is Some {
        None
    } else {
        let f1 = if piece == Piece::King && iabs(from % 8 - to % 8) == 2 {
            if to % 8 > from % 8 {
                KING_CASTLE
            } else {
                QUEEN_CASTLE
            }
        } else if piece == Piece::Pawn && iabs(from / 8 - to / 8) == 2 {
            DOUBLE_PAWN
        } else if piece == Piece::Pawn && board.enpassant_square == Some(Square(to as usize)) && iabs(
            from % 8 - to % 8,
        ) == 1 {
            EN_PASSANT
        } else {
            QUIET
        };
        Some(if f1 == QUIET && cap { CAPTURE } else { f1 })
    }
}

/// The move a UCI text names on `board` before its legality is checked: origin and
/// destination square names, then an optional promotion letter.
pub open spec fn uci_candidate(board: Board, s: Seq<char>) -> Result<u16, NotationError> {
    if s.len() < 4 || s.len() > 5 {
        Err(NotationError::BadFormat)
    } else if !square_text_ok(s.subrange(0, 2)) || !square_text_ok(s.subrange(2, 4)) {
        Err(NotationError::BadSquare)
    } else {
        let from = square_of_text(s.subrange(0, 2));
        let to = square_of_text(s.subrange(2, 4));
        let pc = if s.len() == 5 { Some(s[4]) } else { None };
        if board.positions.mb()[from] is None {
            Err(NotationError::NoPiece)
        } else {
            match uci_flags(board, from, to, pc) {
                Some(fl) => Ok((from + to * 64 + fl) as u16),
                None => Err(NotationError::BadPromotion),
            }
        }
    }
}

/// Making move `m` on `board` gives a board on which the mover is not in check.
pub open spec fn leaves_king_safe(board: Board, m: u16, keys: ZobristKeys) -> bool {
    exists|info: MoveInfo, after: Board| #[trigger] make_post(board, m, info, after, keys) && !in_check_spec(after, board.stm)
}

/// The text reads as a move that can be made on `board` without leaving the mover in check.
pub open spec fn uci_playable(board: Board, s: Seq<char>, keys: ZobristKeys) -> bool {
    match uci_candidate(board, s) {
        Ok(c) => make_ok(board.positions.mb(), board.stm, c) && make_no_panic(board, c) && leaves_king_safe(board, c, keys),
        Err(_) => false,
    }
}

/// Whether making `m` on `board` runs clear of the clocks' limits and of en passant squares
/// off the board.
fn make_is_safe(board: &Board, m: Move) -> (r: bool)
    requires
        board.positions.wf(),
    ensures
        r == make_no_panic(*board, m.0),
{
    let fl = m.flags();
    let to = m.to_idx() as usize;
    if fl == DOUBLE_PAWN || fl == EN_PASSANT {
        let ok = if board.stm == Side::White { to >= 8 } else { to + 8 < 64 };
        if !ok {
            return false;
        }
    }
    let from = m.from_sq();
    let pawn = match board.positions.get_piece_at(&from) {
        Some((p, _)) => p == Piece::Pawn,
        None => false,
    };
    if !(board.halfmove_clock < 255 || pawn || m.is_capture()) {
        return false;
    }
    if board.stm == Side::Black && board.fullmove_counter >= 255 {
        return false;
    }
    true
}

/// Makes `m` on `board` when doing so runs clear of the clocks' limits; tells whether the
/// move was made.
pub fn make_move_safely(board: &mut Board, m: Move, keys: &ZobristKeys) -> (r: bool)
    requires
        old(board).wf(),
    ensures
        r <==> make_no_panic(*old(board), m.0) && make_ok(old(board).positions.mb(), old(board).stm, m.0),
        r ==> final(board).wf(),
        r ==> make_no_panic(*old(board), m.0) && make_ok(old(board).positions.mb(), old(board).stm, m.0),
        r ==> exists|info: MoveInfo| #[trigger] make_post(*old(board), m.0, info, *final(board), *keys),
        !make_no_panic(*old(board), m.0) ==> !r && *final(board) == *old(board),
{
    if !make_is_safe(board, m) {
        return false;
    }
    match board.make_move(m, keys) {
        Ok(info) => {
            proof {
                assert(make_post(*old(board), m.0, info, *board, *keys));
            }
            true
        },
        Err(_) => false,
    }
}

proof fn lemma_pack(from: int, to: int, fl: u16)
    requires
        0 <= from < 64,
        0 <= to < 64,
        fl % 4096 == 0,
    ensures
        (from as u8 as u16) | ((to as u8 as u16) << 6u16) | fl == (from + to * 64 + fl) as u16,
{
    let f = from as u16;
    let t = to as u16;
    assert(f < 64 && t < 64 && fl % 4096 == 0 ==> f | (t << 6u16) | fl == (f + t * 64 + fl) as u16) by (bit_vector);
}

impl Move {
    /// Reads a move in UCI notation (`e2e4`, `e7e8q`) on `board`, with the flags the position
    /// gives it, and accepts it when it can be made without leaving the mover's king in check.
    pub fn from_uci(board: &Board, uci: &str, keys: &ZobristKeys) -> (r: Result<Move, NotationError>)
        requires
            board.wf(),
        ensures
            uci_candidate(*board, uci@) is Err ==> r == Err::<Move, NotationError>(uci_candidate(*board, uci@)->Err_0),
            r matches Ok(m) ==> uci_candidate(*board, uci@) == Ok::<u16, NotationError>(m.0),
            r matches Ok(m) ==> make_ok(board.positions.mb(), board.stm, m.0) && make_no_panic(*board, m.0),
            r matches Ok(m) ==> leaves_king_safe(*board, m.0, *keys),
            uci_candidate(*board, uci@) is Ok && r is Err ==> r == Err::<Move, NotationError>(NotationError::Illegal),
            uci_playable(*board, uci@, *keys) ==> r == Ok::<Move, NotationError>(Move(uci_candidate(*board, uci@)->Ok_0)),
    {
        let s = chars_of(uci);
        let n = s.len();
        if n < 4 || n > 5 {
            return Err(NotationError::BadFormat);
        }
        let from_text = vec![s[0], s[1]];
        let to_text = vec![s[2], s[3]];
        proof {
            assert(from_text@ =~= uci@.subrange(0, 2));
            assert(to_text@ =~= uci@.subrange(2, 4));
        }
        let from = match square_from_chars(&from_text) {
            Some(sq) => sq,
            None => {
                return Err(NotationError::BadSquare);
            },
        };
        let to = match square_from_chars(&to_text) {
            Some(sq) => sq,
            None => {
                return Err(NotationError::BadSquare);
            },
        };
        let promo_char: Option<char> = if n == 5 { Some(s[4]) } else { None };
        let piece = match board.get_piece_at(from) {
            Some(p) => p,
            None => {
                return Err(NotationError::NoPiece);
            },
        };
        let is_capture = board.get_piece_at(to).is_some();
        let mut flags = QUIET;
        if piece == Piece::Pawn {
            let promo_rank: usize = if board.stm == Side::White { 7 } else { 0 };
            if to.row() == promo_rank {
                flags = match promo_char {
                    Some('q') => if is_capture { PROMO_QC } else { PROMO_Q },
                    Some('r') => if is_capture { PROMO_RC } else { PROMO_R },
                    Some('b') => if is_capture { PROMO_BC } else { PROMO_B },
                    Some('n') => if is_capture { PROMO_NC } else { PROMO_N },
                    _ => {
                        return Err(NotationError::BadPromotion);
                    },
                };
            } else {
                match promo_char {
                    Some(c) => {
                        if c == 'q' || c == 'r' || c == 'b' || c == 'n' {
                            return Err(NotationError::BadPromotion);
                        }
                    },
                    None => {},
                }
            }
        }
        if flags == QUIET {
            let fc = from.col();
            let tc = to.col();
            let col_diff = if fc > tc { fc - tc } else { tc - fc };
            let fr = from.row();
            let tr = to.row();
            let row_diff = if fr > tr { fr - tr } else { tr - fr };
            if piece == Piece::King {
                if col_diff == 2 {
                    flags = if tc > fc { KING_CASTLE } else { QUEEN_CASTLE };
                }
            } else if piece == Piece::Pawn {
                match board.enpassant_square {
                    Some(ep_square) => {
                        if to == ep_square && col_diff == 1 {
                            flags = EN_PASSANT;
                        }
                    },
                    None => {},
                }
                if row_diff == 2 {
                    flags = DOUBLE_PAWN;
                }
            }
        }
        if flags == QUIET && is_capture {
            flags = CAPTURE;
        }
        let candidate_move = Move::new(from.index() as u8, to.index() as u8, flags);
        proof {
            lemma_pack(from.0 as int, to.0 as int, flags);
            assert(candidate_move.0 == (from.0 + to.0 * 64 + flags) as u16);
            assert(uci_candidate(*board, uci@) == Ok::<u16, NotationError>(candidate_move.0));
        }
        if !make_is_safe(board, candidate_move) {
            return Err(NotationError::Illegal);
        }
        let mut temp_board = *board;
        match temp_board.make_move(candidate_move, keys) {
            Ok(info) => {
                if !temp_board.is_in_check(board.stm) {
                    proof {
                        assert(make_post(*board, candidate_move.0, info, temp_board, *keys) && !in_check_spec(temp_board, board.stm));
                        assert(leaves_king_safe(*board, candidate_move.0, *keys));
                    }
                    return Ok(candidate_move);
                }
                proof {
                    assert(make_post(*board, candidate_move.0, info, temp_board, *keys));
                    if leaves_king_safe(*board, candidate_move.0, *keys) {
                        let (i2, a2) = choose|i2: MoveInfo, a2: Board| #[trigger] make_post(*board, candidate_move.0, i2, a2, *keys)
                            && !in_check_spec(a2, board.stm);
                        crate::board::lemma_make_post_unique(*board, candidate_move.0, info, temp_board, i2, a2, *keys);
                    }
                }
            },
            Err(_) => {},
        }
        Err(NotationError::Illegal)
    }
}

/// Reads a square from its two-character name.
fn square_from_chars(t: &Vec<char>) -> (r: Option<Square>)
    ensures
        r is Some <==> square_text_ok(t@),
        r matches Some(sq) ==> sq.0 == square_of_text(t@) && sq.0 < 64,
{
    if t.len() != 2 {
        return None;
    }
    let letter = crate::components::to_ascii_upper(t[0]);
    let num = t[1];
    if !('A' <= letter && letter <= 'H') || !('1' <= num && num <= '8') {
        return None;
    }
    let file = (letter as u32 - 'A' as u32) as usize;
    let rank = (num as u32 - '1' as u32) as usize;
    Some(Square(8 * rank + file))
}

/// The parts of a move in standard algebraic notation, checks and mates stripped.
pub struct SanMove {
    pub piece: Piece,
    pub to: Square,
    /// Origin file, 1 for a.
    pub from_file: Option<usize>,
    /// Origin rank, 1 for the first.
    pub from_rank: Option<usize>,
    pub is_capture: bool,
    pub promotion: Option<Piece>,
}

/// The promotion piece a SAN text ends in: its last letter of `QRBN`, when it holds an `=`.
pub open spec fn san_promotion(s: Seq<char>) -> Option<Piece> {
    if s.len() > 0 && s.contains('=') {
        let c = s.last();
        if c == 'Q' {
            Some(Piece::Queen)
        } else if c == 'R' {
            Some(Piece::Rook)
        } else if c == 'B' {
            Some(Piece::Bishop)
        } else if c == 'N' {
            Some(Piece::Knight)
        } else {
            None
        }
    } else {
        None
    }
}

/// The piece a SAN prefix names by its first letter; a pawn when it names none.
pub open spec fn san_piece(prefix: Seq<char>) -> Piece {
    if prefix.len() > 0 && prefix[0] == 'K' {
        Piece::King
    } else if prefix.len() > 0 && prefix[0] == 'Q' {
        Piece::Queen
    } else if prefix.len() > 0 && prefix[0] == 'R' {
        Piece::Rook
    } else if prefix.len() > 0 && prefix[0] == 'B' {
        Piece::Bishop
    } else if prefix.len() > 0 && prefix[0] == 'N' {
        Piece::Knight
    } else {
        Piece::Pawn
    }
}

/// The last file letter `a`-`h` among the first `n` characters, as 1 to 8.
pub open spec fn last_file(s: Seq<char>, n: int) -> Option<usize>
    decreases n,
{
    if n <= 0 {
        None
    } else if 'a' <= s[n - 1] <= 'h' {
        Some((s[n - 1] as int - 'a' as int + 1) as usize)
    } else {
        last_file(s, n - 1)
    }
}

/// The last rank digit `1`-`8` among the first `n` characters.
pub open spec fn last_rank(s: Seq<char>, n: int) -> Option<usize>
    decreases n,
{
    if n <= 0 {
        None
    } else if '1' <= s[n - 1] <= '8' {
        Some((s[n - 1] as int - '0' as int) as usize)
    } else {
        last_rank(s, n - 1)
    }
}

/// The parts of SAN text `s`: promotion, destination (the last two characters before the
/// promotion), piece, capture mark and origin hints.
pub open spec fn san_parts_ok(s: Seq<char>, m: SanMove) -> bool {
    let promo = san_promotion(s);
    let body = if promo is Some { s.subrange(0, s.len() - 2) } else { s };
    let prefix = body.subrange(0, body.len() - 2);
    let piece = san_piece(prefix);
    let info = if piece == Piece::Pawn { prefix } else { prefix.subrange(1, prefix.len() as int) };
    &&& body.len() >= 2
    &&& square_text_ok(body.subrange(body.len() - 2, body.len() as int))
    &&& m.to.0 == square_of_text(body.subrange(body.len() - 2, body.len() as int))
    &&& m.promotion == promo
    &&& m.piece == piece
    &&& m.is_capture == info.contains('x')
    &&& m.from_file == last_file(info, info.len() as int)
    &&& m.from_rank == last_rank(info, info.len() as int)
}

/// The SAN text `s` reads: long enough, with a square name where the destination goes.
pub open spec fn san_reads(s: Seq<char>) -> bool {
    let promo = san_promotion(s);
    let body = if promo is Some { s.subrange(0, s.len() - 2) } else { s };
    body.len() >= 2 && square_text_ok(body.subrange(body.len() - 2, body.len() as int))
}

/// Whether `s` holds character `c`.
fn has_char(s: &Vec<char>, c: char) -> (r: bool)
    ensures
        r == s@.contains(c),
{
    let mut i: usize = 0;
    while i < s.len()
        invariant
            i <= s@.len(),
            forall|k: int| 0 <= k < i ==> s@[k] != c,
        decreases s@.len() - i,
    {
        if s[i] == c {
            proof {
                assert(s@[i as int] == c);
            }
            return true;
        }
        i = i + 1;
    }
    false
}

/// The characters `s[lo..hi]`.
fn slice_chars(s: &Vec<char>, lo: usize, hi: usize) -> (r: Vec<char>)
    requires
        lo <= hi <= s@.len(),
    ensures
        r@ == s@.subrange(lo as int, hi as int),
{
    let mut v: Vec<char> = Vec::new();
    let mut i = lo;
    while i < hi
        invariant
            lo <= i <= hi,
            hi <= s@.len(),
            v@ == s@.subrange(lo as int, i as int),
        decreases hi - i,
    {
        v.push(s[i]);
        proof {
            assert(v@ =~= s@.subrange(lo as int, i as int + 1));
        }
        i = i + 1;
    }
    v
}

impl SanMove {
    /// Reads the parts of a SAN move whose check and mate marks are already stripped.
    pub fn parse(san: &Vec<char>) -> (r: Result<SanMove, NotationError>)
        ensures
            r is Ok <==> san_reads(san@),
            r matches Ok(m) ==> san_parts_ok(san@, m),
            r matches Err(e) ==> e == NotationError::BadFormat || e == NotationError::BadSquare,
    {
        let n = san.len();
        let promotion = if n > 0 && has_char(san, '=') {
            let c = san[n - 1];
            if c == 'Q' {
                Some(Piece::Queen)
            } else if c == 'R' {
                Some(Piece::Rook)
            } else if c == 'B' {
                Some(Piece::Bishop)
            } else if c == 'N' {
                Some(Piece::Knight)
            } else {
                None
            }
        } else {
            None
        };
        let body_len = if promotion.is_some() { n - 2 } else { n };
        if body_len < 2 {
            return Err(NotationError::BadFormat);
        }
        let to_text = slice_chars(san, body_len - 2, body_len);
        let to = match square_from_chars(&to_text) {
            Some(sq) => sq,
            None => {
                return Err(NotationError::BadSquare);
            },
        };
        let prefix = slice_chars(san, 0, body_len - 2);
        let piece = if prefix.len() > 0 && prefix[0] == 'K' {
            Piece::King
        } else if prefix.len() > 0 && prefix[0] == 'Q' {
            Piece::Queen
        } else if prefix.len() > 0 && prefix[0] == 'R' {
            Piece::Rook
        } else if prefix.len() > 0 && prefix[0] == 'B' {
            Piece::Bishop
        } else if prefix.len() > 0 && prefix[0] == 'N' {
            Piece::Knight
        } else {
            Piece::Pawn
        };
        let info = if piece == Piece::Pawn { slice_chars(&prefix, 0, prefix.len()) } else { slice_chars(&prefix, 1, prefix.len()) };
        let is_capture = has_char(&info, 'x');
        let mut from_file: Option<usize> = None;
        let mut from_rank: Option<usize> = None;
        let mut i: usize = 0;
        while i < info.len()
            invariant
                i <= info@.len(),
                from_file == last_file(info@, i as int),
                from_rank == last_rank(info@, i as int),
            decreases info@.len() - i,
        {
            let c = info[i];
            if 'a' <= c && c <= 'h' {
                from_file = Some((c as u32 - 'a' as u32 + 1) as usize);
            } else if '1' <= c && c <= '8' {
                from_rank = Some((c as u32 - '0' as u32) as usize);
            }
            i = i + 1;
        }
        proof {
            assert(prefix@ =~= san@.subrange(0, body_len as int).subrange(0, body_len as int - 2));
            assert(to_text@ =~= san@.subrange(0, body_len as int).subrange(body_len as int - 2, body_len as int));
            if promotion is None {
                assert(san@.subrange(0, body_len as int) =~= san@);
            }
            assert(piece == san_piece(prefix@));
            if piece == Piece::Pawn {
                assert(info@ =~= prefix@);
            } else {
                assert(info@ =~= prefix@.subrange(1, prefix@.len() as int));
            }
        }
        Ok(SanMove { piece, to, from_file, from_rank, is_capture, promotion })
    }

    /// Whether a legal move fits these parts: same destination and promotion, the named piece
    /// on its origin, the capture flag as written for a pawn (a written capture must capture
    /// for other pieces), and the origin hints.
    pub fn matches(&self, legal_move: Move, board: &Board) -> (r: bool)
        requires
            board.positions.wf(),
        ensures
            r == san_matches(*self, legal_move.0, *board),
    {
        if self.to != legal_move.to_sq() {
            return false;
        }
        if self.promotion != legal_move.promoted_piece() {
            return false;
        }
        let from_sq = legal_move.from_sq();
        match board.get_piece_at(from_sq) {
            Some(p) => {
                if p != self.piece {
                    return false;
                }
            },
            None => {
                return false;
            },
        }
        if self.piece == Piece::Pawn {
            if self.is_capture != legal_move.is_capture() {
                return false;
            }
        } else {
            if self.is_capture && !legal_move.is_capture() {
                return false;
            }
        }
        match self.from_file {
            Some(file) => {
                if from_sq.file() != file {
                    return false;
                }
            },
            None => {},
        }
        match self.from_rank {
            Some(rank) => {
                if from_sq.rank() != rank {
                    return false;
                }
            },
            None => {},
        }
        true
    }
}

/// Move `m` fits the SAN parts on `board`.
pub open spec fn san_matches(sm: SanMove, m: u16, board: Board) -> bool {
    let from = mv_from(m);
    &&& sm.to.0 == mv_to(m)
    &&& sm.promotion == crate::move_info::flag_promo_piece(mv_flags(m))
    &&& board.positions.mb()[from] is Some
    &&& board.positions.mb()[from]->0.piece == sm.piece
    &&& (sm.piece == Piece::Pawn ==> sm.is_capture == (m & CAPTURE != 0))
    &&& (sm.piece != Piece::Pawn && sm.is_capture ==> m & CAPTURE != 0)
    &&& (sm.from_file matches Some(f) ==> from % 8 + 1 == f)
    &&& (sm.from_rank matches Some(rk) ==> from / 8 + 1 == rk)
}

/// Move `m` fits the parts SAN text `s` reads as.
pub open spec fn san_names(s: Seq<char>, m: u16, board: Board) -> bool {
    exists|sm: SanMove| san_parts_ok(s, sm) && #[trigger] san_matches(sm, m, board)
}

/// `s` without its trailing `+` and `#` marks.
pub open spec fn trim_marks(s: Seq<char>) -> Seq<char>
    decreases s.len(),
{
    if s.len() > 0 && (s.last() == '+' || s.last() == '#') {
        trim_marks(s.drop_last())
    } else {
        s
    }
}

/// A castling move towards the king's side (`kingside`) or the queen's.
pub open spec fn castle_toward(m: u16, kingside: bool) -> bool {
    &&& (mv_flags(m) == KING_CASTLE || mv_flags(m) == QUEEN_CASTLE)
    &&& if kingside {
        mv_to(m) % 8 > mv_from(m) % 8
    } else {
        mv_to(m) % 8 < mv_from(m) % 8
    }
}

impl Move {
    /// Reads a move in standard algebraic notation (`Nf3`, `exd5`, `bxa8=Q+`, `O-O`) as the
    /// one legal move it names.
    pub fn from_san(board: &Board, san: &str) -> (r: Result<Move, NotationError>)
        requires
            board.wf(),
            pawns_placed_ok(board.positions, board.stm),
        ensures
            r matches Ok(m) ==> board_fits(*board, m.0) || plain_flag(m.0),
            r matches Ok(m) ==> (trim_marks(san@) == seq!['O', '-', 'O'] ==> castle_toward(m.0, true)),
            r matches Ok(m) ==> (trim_marks(san@) == seq!['O', '-', 'O', '-', 'O'] ==> castle_toward(m.0, false)),
            r matches Ok(m) ==> (trim_marks(san@) != seq!['O', '-', 'O'] && trim_marks(san@) != seq!['O', '-', 'O', '-', 'O']
                ==> san_names(trim_marks(san@), m.0, *board)),
            trim_marks(san@) != seq!['O', '-', 'O'] && trim_marks(san@) != seq!['O', '-', 'O', '-', 'O'] && !san_reads(
                trim_marks(san@),
            ) ==> r is Err,
    {
        let mut legal_moves = MoveBuffer::new();
        board.generate_legal_moves(&mut legal_moves, false);
        let all = chars_of(san);
        let mut end = all.len();
        proof {
            assert(all@.subrange(0, end as int) =~= all@);
        }
        while end > 0 && (all[end - 1] == '+' || all[end - 1] == '#')
            invariant
                end <= all@.len(),
                trim_marks(all@.subrange(0, end as int)) == trim_marks(all@),
            decreases end,
        {
            proof {
                assert(all@.subrange(0, end as int).drop_last() =~= all@.subrange(0, end as int - 1));
            }
            end = end - 1;
        }
        let clean = slice_chars(&all, 0, end);
        proof {
            assert(trim_marks(clean@) == clean@);
            assert(trim_marks(san@) == clean@);
        }
        let is_oo = clean.len() == 3 && clean[0] == 'O' && clean[1] == '-' && clean[2] == 'O';
        let is_ooo = clean.len() == 5 && clean[0] == 'O' && clean[1] == '-' && clean[2] == 'O' && clean[3] == '-'
            && clean[4] == 'O';
        proof {
            if is_oo {
                assert(clean@ =~= seq!['O', '-', 'O']);
            } else {
                assert(clean@ != seq!['O', '-', 'O']) by {
                    if clean@ == seq!['O', '-', 'O'] {
                        assert(clean@.len() == 3 && clean@[0] == 'O' && clean@[1] == '-' && clean@[2] == 'O');
                    }
                }
            }
            if is_ooo {
                assert(clean@ =~= seq!['O', '-', 'O', '-', 'O']);
            } else {
                assert(clean@ != seq!['O', '-', 'O', '-', 'O']) by {
                    if clean@ == seq!['O', '-', 'O', '-', 'O'] {
                        assert(clean@.len() == 5 && clean@[0] == 'O' && clean@[4] == 'O');
                    }
                }
            }
        }
        if is_oo || is_ooo {
            proof {
                if is_oo && is_ooo {
                    assert(clean@.len() == 3);
                }
            }
            let mut i: usize = 0;
            while i < legal_moves.len()
                invariant
                    i <= legal_moves@.len(),
                    grows_weak(*board, Seq::empty(), legal_moves@),
                    trim_marks(san@) == clean@,
                    is_oo <==> clean@ == seq!['O', '-', 'O'],
                    is_ooo <==> clean@ == seq!['O', '-', 'O', '-', 'O'],
                    is_oo || is_ooo,
                    !(is_oo && is_ooo),
                decreases legal_moves@.len() - i,
            {
                let m = match legal_moves.get(i) {
                    Some(m) => m,
                    None => Move(0),
                };
                if m.is_castling() {
                    let ok = if is_oo { m.to_sq().col() > m.from_sq().col() } else { m.to_sq().col() < m.from_sq().col() };
                    if ok {
                        proof {
                            assert(board_fits(*board, legal_moves@[i as int].0) || plain_flag(legal_moves@[i as int].0));
                        }
                        return Ok(m);
                    }
                }
                i = i + 1;
            }
            return Err(NotationError::Illegal);
        }
        let san_move = match SanMove::parse(&clean) {
            Ok(sm) => sm,
            Err(e) => {
                return Err(e);
            },
        };
        let mut matching_move: Option<Move> = None;
        let mut i: usize = 0;
        while i < legal_moves.len()
            invariant
                i <= legal_moves@.len(),
                board.wf(),
                grows_weak(*board, Seq::empty(), legal_moves@),
                trim_marks(san@) == clean@,
                clean@ != seq!['O', '-', 'O'],
                clean@ != seq!['O', '-', 'O', '-', 'O'],
                san_parts_ok(clean@, san_move),
                matching_move matches Some(mm) ==> (board_fits(*board, mm.0) || plain_flag(mm.0)) && san_matches(san_move, mm.0, *board),
            decreases legal_moves@.len() - i,
        {
            let m = match legal_moves.get(i) {
                Some(m) => m,
                None => Move(0),
            };
            if san_move.matches(m, board) {
                if matching_move.is_some() {
                    return Err(NotationError::Ambiguous);
                }
                proof {
                    assert(board_fits(*board, legal_moves@[i as int].0) || plain_flag(legal_moves@[i as int].0));
                }
                matching_move = Some(m);
            }
            i = i + 1;
        }
        match matching_move {
            Some(m) => {
                proof {
                    assert(san_parts_ok(trim_marks(san@), san_move) && san_matches(san_move, m.0, *board));
                    assert(san_names(trim_marks(san@), m.0, *board));
                }
                Ok(m)
            },
            None => Err(NotationError::Illegal),
        }
    }
}

} // verus!
