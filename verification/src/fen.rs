use vstd::prelude::*;
use crate::board::Board;
use crate::board_state::{BoardState, fen_ranks_text};
use crate::components::{
    CastlingRights, Piece, PieceInfo, Side, Square, SquareError, castling_text, lower_char, WHITE_00, WHITE_000,
    BLACK_00, BLACK_000,
};
use crate::move_info::{Move, coord_text};
use crate::score::Score;
use crate::text::{push_char, chars_of, decimal_text, u64_to_text};

verus! {

/// Why a FEN string was refused.
#[derive(Debug, PartialEq, Eq, Structural, Clone, Copy)]
pub enum FenError {
    /// The string does not have six fields.
    WrongFieldCount,
    /// The piece placement names an unknown letter, leaves the board, or fills a square twice.
    BadPiecePlacement,
    /// The side to move is neither `w` nor `b`.
    BadSideToMove,
    /// The castling field holds a letter other than `KQkq-`.
    BadCastling,
    /// The en passant field is neither `-` nor a square on the third or sixth rank.
    BadEnPassant,
    /// The halfmove clock is not a number from 0 to 255.
    BadHalfmove,
    /// The fullmove counter is not a number from 0 to 255.
    BadFullmove,
}

/// Whether `c` has the Unicode `White_Space` property: tab, line feed, vertical tab, form
/// feed, carriage return, space, next line, no-break space, ogham space mark, the spaces
/// U+2000 to U+200A, line and paragraph separators, narrow no-break space, medium
/// mathematical space and ideographic space.
pub open spec fn unicode_whitespace(c: char) -> bool {
    let n = c as int;
    ||| 0x09 <= n <= 0x0D
    ||| n == 0x20
    ||| n == 0x85
    ||| n == 0xA0
    ||| n == 0x1680
    ||| 0x2000 <= n <= 0x200A
    ||| n == 0x2028
    ||| n == 0x2029
    ||| n == 0x202F
    ||| n == 0x205F
    ||| n == 0x3000
}

/// `char::is_whitespace`: whether `c` has the Unicode `White_Space` property, the list of
/// characters that [`unicode_whitespace`] gives.
#[verifier::external_body]
pub(crate) fn is_whitespace(c: char) -> (r: bool)
    ensures
        r == unicode_whitespace(c),
{
    c.is_whitespace()
}

/// The fields of `s` from position `i` on, `cur` being the field read so far and `acc` the
/// fields before it: maximal runs of characters that are not white space.
pub open spec fn split_from(s: Seq<char>, i: int, cur: Seq<char>, acc: Seq<Seq<char>>) -> Seq<Seq<char>>
    decreases s.len() - i,
{
    if i >= s.len() {
        if cur.len() > 0 {
            acc.push(cur)
        } else {
            acc
        }
    } else if unicode_whitespace(s[i]) {
        split_from(s, i + 1, Seq::empty(), if cur.len() > 0 { acc.push(cur) } else { acc })
    } else {
        split_from(s, i + 1, cur.push(s[i]), acc)
    }
}

/// The white-space separated fields of `s`.
pub open spec fn fields_of(s: Seq<char>) -> Seq<Seq<char>> {
    split_from(s, 0, Seq::empty(), Seq::empty())
}

/// Splits `s` into its white-space separated fields.
pub fn split_fields(s: &Vec<char>) -> (r: Vec<Vec<char>>)
    ensures
        r@.len() == fields_of(s@).len(),
        forall|i: int| 0 <= i < r@.len() ==> #[trigger] r@[i]@ == fields_of(s@)[i],
{
    let mut acc: Vec<Vec<char>> = Vec::new();
    let mut cur: Vec<char> = Vec::new();
    let mut i: usize = 0;
    let ghost views: Seq<Seq<char>> = Seq::empty();
    while i < s.len()
        invariant
            i <= s@.len(),
            views.len() == acc@.len(),
            forall|k: int| 0 <= k < acc@.len() ==> #[trigger] acc@[k]@ == views[k],
            split_from(s@, i as int, cur@, views) == fields_of(s@),
        decreases s@.len() - i,
    {
        let c = s[i];
        let ghost cur0 = cur@;
        let ghost views0 = views;
        if is_whitespace(c) {
            if cur.len() > 0 {
                proof {
                    views = views.push(cur@);
                }
                acc.push(cur);
                cur = Vec::new();
                proof {
                    assert(cur@ =~= Seq::<char>::empty());
                }
            } else {
                proof {
                    assert(cur@ =~= Seq::<char>::empty());
                }
            }
        } else {
            cur.push(c);
        }
        proof {
            assert(s@[i as int] == c);
            assert(split_from(s@, i as int, cur0, views0) == split_from(s@, i as int + 1, cur@, views));
        }
        i = i + 1;
    }
    if cur.len() > 0 {
        proof {
            views = views.push(cur@);
        }
        acc.push(cur);
    }
    proof {
        assert(views == fields_of(s@));
    }
    acc
}

/// The piece and side a FEN letter stands for.
pub open spec fn piece_of_char(c: char) -> Option<(Piece, Side)> {
    if c == 'P' {
        Some((Piece::Pawn, Side::White))
    } else if c == 'p' {
        Some((Piece::Pawn, Side::Black))
    } else if c == 'B' {
        Some((Piece::Bishop, Side::White))
    } else if c == 'b' {
        Some((Piece::Bishop, Side::Black))
    } else if c == 'N' {
        Some((Piece::Knight, Side::White))
    } else if c == 'n' {
        Some((Piece::Knight, Side::Black))
    } else if c == 'R' {
        Some((Piece::Rook, Side::White))
    } else if c == 'r' {
        Some((Piece::Rook, Side::Black))
    } else if c == 'Q' {
        Some((Piece::Queen, Side::White))
    } else if c == 'q' {
        Some((Piece::Queen, Side::Black))
    } else if c == 'K' {
        Some((Piece::King, Side::White))
    } else if c == 'k' {
        Some((Piece::King, Side::Black))
    } else {
        None
    }
}

/// The piece and side of a FEN letter, `None` for any other character.
pub fn piece_char_lookup(c: char) -> (r: Option<(Piece, Side)>)
    ensures
        r == piece_of_char(c),
{
    match c {
        'P' => Some((Piece::Pawn, Side::White)),
        'p' => Some((Piece::Pawn, Side::Black)),
        'B' => Some((Piece::Bishop, Side::White)),
        'b' => Some((Piece::Bishop, Side::Black)),
        'N' => Some((Piece::Knight, Side::White)),
        'n' => Some((Piece::Knight, Side::Black)),
        'R' => Some((Piece::Rook, Side::White)),
        'r' => Some((Piece::Rook, Side::Black)),
        'Q' => Some((Piece::Queen, Side::White)),
        'q' => Some((Piece::Queen, Side::Black)),
        'K' => Some((Piece::King, Side::White)),
        'k' => Some((Piece::King, Side::Black)),
        _ => None,
    }
}

/// One character of the piece placement, from what stands where, the rank and the file: a
/// digit 1-8 skips that many files, `/` goes down a rank (refused below the first), a piece
/// letter fills square `rank * 8 + file` (refused off the board or on a filled square) and
/// moves one file on; anything else is refused.
pub open spec fn place_step(st: (Seq<Option<PieceInfo>>, int, int), c: char) -> Option<(Seq<Option<PieceInfo>>, int, int)> {
    let (mb, rank, file) = st;
    if '1' <= c <= '8' {
        Some((mb, rank, file + (c as int - '0' as int)))
    } else if c == '/' {
        if rank == 0 {
            None
        } else {
            Some((mb, rank - 1, 0))
        }
    } else {
        match piece_of_char(c) {
            Some((p, s)) => {
                let idx = rank * 8 + file;
                if idx >= 64 || mb[idx] is Some {
                    None
                } else {
                    Some((mb.update(idx, Some(PieceInfo { piece: p, side: s })), rank, file + 1))
                }
            },
            None => None,
        }
    }
}

/// Reading the first `n` characters of the piece placement, from an empty board on the
/// eighth rank.
pub open spec fn place_run(s: Seq<char>, n: int) -> Option<(Seq<Option<PieceInfo>>, int, int)>
    decreases n,
{
    if n <= 0 {
        Some((Seq::new(64, |i: int| None), 7, 0))
    } else {
        match place_run(s, n - 1) {
            Some(st) => place_step(st, s[n - 1]),
            None => None,
        }
    }
}

/// What stands where once the whole piece placement `s` is read.
pub open spec fn placed_mb(s: Seq<char>) -> Seq<Option<PieceInfo>> {
    match place_run(s, s.len() as int) {
        Some((mb, _r, _f)) => mb,
        None => Seq::empty(),
    }
}

/// The reading state `st` agrees with the square list `mb`, the rank, and the file, the file
/// being kept at 64 once it passes the board.
pub open spec fn placing_matches(st: (Seq<Option<PieceInfo>>, int, int), mb: Seq<Option<PieceInfo>>, rank: int, file: int) -> bool {
    let (m, r, f) = st;
    &&& m == mb
    &&& r == rank
    &&& if f >= 64 { file == 64 } else { file == f }
}

/// Places the pieces of the first FEN field on an empty board.
pub fn place_pieces(pieces: &Vec<char>) -> (r: Result<BoardState, FenError>)
    ensures
        r is Ok <==> (!pieces@.contains(' ') && place_run(pieces@, pieces@.len() as int) is Some),
        r matches Ok(pos) ==> pos.wf() && pos.mb() == placed_mb(pieces@),
        r matches Err(e) ==> e == FenError::BadPiecePlacement,
{
    let mut i: usize = 0;
    while i < pieces.len()
        invariant
            i <= pieces@.len(),
            forall|k: int| 0 <= k < i ==> pieces@[k] != ' ',
        decreases pieces@.len() - i,
    {
        if pieces[i] == ' ' {
            proof {
                assert(pieces@.contains(' ')) by {
                    assert(pieces@[i as int] == ' ');
                }
            }
            return Err(FenError::BadPiecePlacement);
        }
        i = i + 1;
    }
    proof {
        assert(!pieces@.contains(' ')) by {
            if pieces@.contains(' ') {
                let k = choose|k: int| 0 <= k < pieces@.len() && pieces@[k] == ' ';
                assert(pieces@[k] != ' ');
            }
        }
    }
    let mut positions = BoardState::new();
    let mut rank: usize = 7;
    let mut file: usize = 0;
    let mut j: usize = 0;
    proof {
        assert(positions.mb() =~= Seq::new(64, |i: int| None::<PieceInfo>));
    }
    while j < pieces.len()
        invariant
            j <= pieces@.len(),
            positions.wf(),
            file <= 64,
            rank <= 7,
            !pieces@.contains(' '),
            place_run(pieces@, j as int) is Some,
            placing_matches(place_run(pieces@, j as int)->0, positions.mb(), rank as int, file as int),
        decreases pieces@.len() - j,
    {
        let c = pieces[j];
        proof {
            positions.lemma_mb_len();
        }
        if '1' <= c && c <= '8' {
            let d = (c as u32 - '0' as u32) as usize;
            file = if file + d > 64 { 64 } else { file + d };
        } else if c == '/' {
            if rank == 0 {
                proof {
                    lemma_place_none(pieces@, j as int + 1, pieces@.len() as int);
                }
                return Err(FenError::BadPiecePlacement);
            }
            rank = rank - 1;
            file = 0;
        } else {
            match piece_char_lookup(c) {
                Some((piece, side)) => {
                    let idx = rank * 8 + file;
                    if idx >= 64 {
                        proof {
                            lemma_place_none(pieces@, j as int + 1, pieces@.len() as int);
                        }
                        return Err(FenError::BadPiecePlacement);
                    }
                    match positions.set(side, piece, idx) {
                        Ok(()) => {},
                        Err(_) => {
                            proof {
                                lemma_place_none(pieces@, j as int + 1, pieces@.len() as int);
                            }
                            return Err(FenError::BadPiecePlacement);
                        },
                    }
                    file = file + 1;
                },
                None => {
                    proof {
                        lemma_place_none(pieces@, j as int + 1, pieces@.len() as int);
                    }
                    return Err(FenError::BadPiecePlacement);
                },
            }
        }
        j = j + 1;
    }
    Ok(positions)
}

/// The side a FEN side-to-move field names.
pub open spec fn stm_of(s: Seq<char>) -> Option<Side> {
    if s == seq!['w'] {
        Some(Side::White)
    } else if s == seq!['b'] {
        Some(Side::Black)
    } else {
        None
    }
}

/// Reads the side to move: `w` or `b`.
pub fn parse_stm(stm: &Vec<char>) -> (r: Result<Side, FenError>)
    ensures
        r is Ok <==> stm_of(stm@) is Some,
        r matches Ok(s) ==> stm_of(stm@) == Some(s),
        r matches Err(e) ==> e == FenError::BadSideToMove,
{
    if stm.len() == 1 {
        if stm[0] == 'w' {
            proof {
                assert(stm@ =~= seq!['w']);
            }
            return Ok(Side::White);
        }
        if stm[0] == 'b' {
            proof {
                assert(stm@ =~= seq!['b']);
            }
            return Ok(Side::Black);
        }
    }
    proof {
        assert(stm@ != seq!['w'] && stm@ != seq!['b']) by {
            if stm@ == seq!['w'] || stm@ == seq!['b'] {
                assert(stm@.len() == 1);
                assert(stm@[0] == stm[0]);
            }
        }
    }
    Err(FenError::BadSideToMove)
}

/// Castling rights after reading the first `n` characters of the castling field: each of
/// `KQkq` adds its right, `-` clears them all; `None` once another character is read.
pub open spec fn castle_run(s: Seq<char>, n: int) -> Option<u8>
    decreases n,
{
    if n <= 0 {
        Some(0u8)
    } else {
        match castle_run(s, n - 1) {
            Some(r) => {
                let c = s[n - 1];
                if c == 'K' {
                    Some(r | WHITE_00)
                } else if c == 'Q' {
                    Some(r | WHITE_000)
                } else if c == 'k' {
                    Some(r | BLACK_00)
                } else if c == 'q' {
                    Some(r | BLACK_000)
                } else if c == '-' {
                    Some(0u8)
                } else {
                    None
                }
            },
            None => None,
        }
    }
}

proof fn lemma_castle_none(s: Seq<char>, n: int, m: int)
    requires
        n <= m,
        castle_run(s, n) is None,
    ensures
        castle_run(s, m) is None,
    decreases m - n,
{
    if n < m {
        lemma_castle_none(s, n, m - 1);
    }
}

proof fn lemma_place_none(s: Seq<char>, n: int, m: int)
    requires
        n <= m,
        place_run(s, n) is None,
    ensures
        place_run(s, m) is None,
    decreases m - n,
{
    if n < m {
        lemma_place_none(s, n, m - 1);
    }
}

proof fn lemma_rights_fold(c: u8)
    by (bit_vector)
    requires
        c < 16,
    ensures
        ({
            let r1: u8 = if c & WHITE_00 != 0 { 0u8 | WHITE_00 } else { 0u8 };
            let r2: u8 = if c & WHITE_000 != 0 { r1 | WHITE_000 } else { r1 };
            let r3: u8 = if c & BLACK_00 != 0 { r2 | BLACK_00 } else { r2 };
            let r4: u8 = if c & BLACK_000 != 0 { r3 | BLACK_000 } else { r3 };
            r4 == c
        }),
        c & WHITE_00 == 0 && c & WHITE_000 == 0 && c & BLACK_00 == 0 && c & BLACK_000 == 0 ==> c == 0,
        c & WHITE_00 != 0 || c & WHITE_000 != 0 || c & BLACK_00 != 0 || c & BLACK_000 != 0 ==> c != 0,
{
}

/// Reading back the castling field that a set of the four rights is written as gives that
/// set: `K`, `Q`, `k` and `q` stand for white king-side, white queen-side, black king-side
/// and black queen-side, and `-` for none.
pub proof fn lemma_castling_field_round_trip(c: u8)
    requires
        c < 16,
    ensures
        castle_run(castling_text(c), castling_text(c).len() as int) == Some(c),
{
    lemma_rights_fold(c);
    reveal_with_fuel(castle_run, 6);
    if c & WHITE_00 != 0 {
        if c & WHITE_000 != 0 {
            if c & BLACK_00 != 0 {
                if c & BLACK_000 != 0 {
                    assert(castling_text(c) =~= seq!['K', 'Q', 'k', 'q']);
                } else {
                    assert(castling_text(c) =~= seq!['K', 'Q', 'k']);
                }
            } else {
                if c & BLACK_000 != 0 {
                    assert(castling_text(c) =~= seq!['K', 'Q', 'q']);
                } else {
                    assert(castling_text(c) =~= seq!['K', 'Q']);
                }
            }
        } else {
            if c & BLACK_00 != 0 {
                if c & BLACK_000 != 0 {
                    assert(castling_text(c) =~= seq!['K', 'k', 'q']);
                } else {
                    assert(castling_text(c) =~= seq!['K', 'k']);
                }
            } else {
                if c & BLACK_000 != 0 {
                    assert(castling_text(c) =~= seq!['K', 'q']);
                } else {
                    assert(castling_text(c) =~= seq!['K']);
                }
            }
        }
    } else {
        if c & WHITE_000 != 0 {
            if c & BLACK_00 != 0 {
                if c & BLACK_000 != 0 {
                    assert(castling_text(c) =~= seq!['Q', 'k', 'q']);
                } else {
                    assert(castling_text(c) =~= seq!['Q', 'k']);
                }
            } else {
                if c & BLACK_000 != 0 {
                    assert(castling_text(c) =~= seq!['Q', 'q']);
                } else {
                    assert(castling_text(c) =~= seq!['Q']);
                }
            }
        } else {
            if c & BLACK_00 != 0 {
                if c & BLACK_000 != 0 {
                    assert(castling_text(c) =~= seq!['k', 'q']);
                } else {
                    assert(castling_text(c) =~= seq!['k']);
                }
            } else {
                if c & BLACK_000 != 0 {
                    assert(castling_text(c) =~= seq!['q']);
                } else {
                    assert(c == 0);
                    assert(castling_text(c) =~= seq!['-']);
                }
            }
        }
    }
}

/// Reads the castling field.
pub fn parse_castle(castle: &Vec<char>) -> (r: Result<CastlingRights, FenError>)
    ensures
        r is Ok <==> castle_run(castle@, castle@.len() as int) is Some,
        r matches Ok(c) ==> Some(c.0) == castle_run(castle@, castle@.len() as int),
        r matches Err(e) ==> e == FenError::BadCastling,
{
    let mut res: u8 = 0;
    let mut i: usize = 0;
    while i < castle.len()
        invariant
            i <= castle@.len(),
            castle_run(castle@, i as int) == Some(res),
        decreases castle@.len() - i,
    {
        let c = castle[i];
        if c == 'K' {
            res = res | WHITE_00;
        } else if c == 'Q' {
            res = res | WHITE_000;
        } else if c == 'k' {
            res = res | BLACK_00;
        } else if c == 'q' {
            res = res | BLACK_000;
        } else if c == '-' {
            res = 0;
        } else {
            proof {
                lemma_castle_none(castle@, i as int + 1, castle@.len() as int);
            }
            return Err(FenError::BadCastling);
        }
        i = i + 1;
    }
    Ok(CastlingRights(res))
}

/// The en passant square a field names: `-` for none, else its first character as a file
/// letter (either case) and its second as rank `3` or `6`.
pub open spec fn ep_of(s: Seq<char>) -> Option<Option<Square>> {
    if s == seq!['-'] {
        Some(None)
    } else if s.len() >= 2 && 'a' <= lower_char(s[0]) <= 'h' && (s[1] == '3' || s[1] == '6') {
        Some(Some(Square(((if s[1] == '3' { 2int } else { 5int }) * 8 + (lower_char(s[0]) as int - 'a' as int)) as usize)))
    } else {
        None
    }
}

/// Reads the en passant field.
pub fn parse_enpassant(enpassant: &Vec<char>) -> (r: Result<Option<Square>, FenError>)
    ensures
        r is Ok <==> ep_of(enpassant@) is Some,
        r matches Ok(e) ==> ep_of(enpassant@) == Some(e),
        r matches Err(e) ==> e == FenError::BadEnPassant,
        r matches Ok(Some(sq)) ==> sq.0 < 64,
{
    if enpassant.len() == 1 && enpassant[0] == '-' {
        proof {
            assert(enpassant@ =~= seq!['-']);
        }
        return Ok(None);
    }
    proof {
        assert(enpassant@ != seq!['-']) by {
            if enpassant@ == seq!['-'] {
                assert(enpassant@[0] == '-');
            }
        }
    }
    if enpassant.len() < 2 {
        return Err(FenError::BadEnPassant);
    }
    match Square::enpassant_from_index(enpassant[0], enpassant[1]) {
        Ok(sq) => Ok(Some(sq)),
        Err(_) => Err(FenError::BadEnPassant),
    }
}

/// The value of the decimal digits of `s` (`u8::from_str`): an optional `+`, then at least
/// one digit; `None` for anything else or a value over 255.
pub open spec fn digits_value(s: Seq<char>, n: int) -> int
    decreases n,
{
    if n <= 0 {
        0
    } else {
        digits_value(s, n - 1) * 10 + (s[n - 1] as int - '0' as int)
    }
}

pub open spec fn all_digits(s: Seq<char>) -> bool {
    forall|i: int| 0 <= i < s.len() ==> '0' <= #[trigger] s[i] <= '9'
}

pub open spec fn u8_of(s: Seq<char>) -> Option<u8> {
    let d = if s.len() > 0 && s[0] == '+' { s.subrange(1, s.len() as int) } else { s };
    if d.len() > 0 && all_digits(d) && digits_value(d, d.len() as int) <= 255 {
        Some(digits_value(d, d.len() as int) as u8)
    } else {
        None
    }
}

proof fn lemma_digits_grow(s: Seq<char>, n: int, m: int)
    requires
        0 <= n <= m <= s.len(),
        all_digits(s),
    ensures
        digits_value(s, n) <= digits_value(s, m),
        0 <= digits_value(s, n),
    decreases m - n,
{
    if n < m {
        lemma_digits_grow(s, n, m - 1);
        if m - 1 >= 0 {
            lemma_digits_nonneg(s, m - 1);
        }
    } else {
        lemma_digits_nonneg(s, n);
    }
}

proof fn lemma_digits_nonneg(s: Seq<char>, n: int)
    requires
        n <= s.len(),
        all_digits(s),
    ensures
        0 <= digits_value(s, n),
    decreases n,
{
    if n > 0 {
        lemma_digits_nonneg(s, n - 1);
    }
}

/// Reads a number from 0 to 255 as `u8::from_str` does.
pub fn parse_u8(s: &Vec<char>) -> (r: Option<u8>)
    ensures
        r == u8_of(s@),
{
    let start: usize = if s.len() > 0 && s[0] == '+' { 1 } else { 0 };
    let ghost d = if s@.len() > 0 && s@[0] == '+' { s@.subrange(1, s@.len() as int) } else { s@ };
    if start >= s.len() {
        return None;
    }
    let mut v: u32 = 0;
    let mut i: usize = start;
    while i < s.len()
        invariant
            start <= i <= s@.len(),
            d == (if s@.len() > 0 && s@[0] == '+' { s@.subrange(1, s@.len() as int) } else { s@ }),
            d.len() == s@.len() - start,
            forall|k: int| 0 <= k < d.len() ==> d[k] == s@[k + start],
            forall|k: int| 0 <= k < i - start ==> '0' <= #[trigger] d[k] <= '9',
            v as int == digits_value(d, i - start),
            v <= 255,
        decreases s@.len() - i,
    {
        let c = s[i];
        if !('0' <= c && c <= '9') {
            proof {
                assert(d[i - start] == c);
                assert(!all_digits(d));
                assert(u8_of(s@) is None);
            }
            return None;
        }
        let ghost v0 = v;
        v = v * 10 + (c as u32 - '0' as u32);
        proof {
            assert(d[i - start] == c);
            assert(v as int == digits_value(d, i - start + 1));
        }
        if v > 255 {
            proof {
                assert(digits_value(d, i - start + 1) > 255);

                assert(all_digits(d) ==> digits_value(d, d.len() as int) > 255) by {
                    if all_digits(d) {
                        lemma_digits_grow(d, i - start + 1, d.len() as int);
                    }
                }
            }
            return None;
        }
        i = i + 1;
    }
    proof {
        assert(all_digits(d));
    }
    Some(v as u8)
}

/// The board a FEN string describes, before its material and hash are set: `None` when
/// a field is malformed or there are not six fields.
pub open spec fn fen_ok(s: Seq<char>) -> bool {
    let f = fields_of(s);
    &&& f.len() == 6
    &&& !f[0].contains(' ')
    &&& place_run(f[0], f[0].len() as int) is Some
    &&& stm_of(f[1]) is Some
    &&& castle_run(f[2], f[2].len() as int) is Some
    &&& ep_of(f[3]) is Some
    &&& u8_of(f[4]) is Some
    &&& u8_of(f[5]) is Some
}

/// The first error a FEN string gives, field by field.
pub open spec fn fen_error(s: Seq<char>) -> FenError {
    let f = fields_of(s);
    if f.len() != 6 {
        FenError::WrongFieldCount
    } else if f[0].contains(' ') || place_run(f[0], f[0].len() as int) is None {
        FenError::BadPiecePlacement
    } else if stm_of(f[1]) is None {
        FenError::BadSideToMove
    } else if castle_run(f[2], f[2].len() as int) is None {
        FenError::BadCastling
    } else if ep_of(f[3]) is None {
        FenError::BadEnPassant
    } else if u8_of(f[4]) is None {
        FenError::BadHalfmove
    } else {
        FenError::BadFullmove
    }
}

/// The board `parse_fen` reads from `s`: its fields, no material and hash 0.
pub open spec fn fen_board_fields(b: Board, s: Seq<char>) -> bool {
    let f = fields_of(s);
    &&& b.positions.wf()
    &&& b.positions.mb() == placed_mb(f[0])
    &&& Some(b.stm) == stm_of(f[1])
    &&& Some(b.castling_rights.0) == castle_run(f[2], f[2].len() as int)
    &&& Some(b.enpassant_square) == ep_of(f[3])
    &&& Some(b.halfmove_clock) == u8_of(f[4])
    &&& Some(b.fullmove_counter) == u8_of(f[5])
}

/// Reads the six fields of a FEN string into a board with zero material and hash 0.
pub fn parse_fen(fen: &str) -> (r: Result<Board, FenError>)
    ensures
        r is Ok <==> fen_ok(fen@),
        r matches Ok(b) ==> fen_board_fields(b, fen@) && b.material[0] == (Score { mg: 0, eg: 0 }) && b.material[1] == (Score { mg: 0, eg: 0 })
            && b.hash == 0,
        r matches Err(e) ==> e == fen_error(fen@),
{
    let chars = chars_of(fen);
    let parts = split_fields(&chars);
    if parts.len() != 6 {
        return Err(FenError::WrongFieldCount);
    }
    proof {
        assert(parts@[0]@ == fields_of(fen@)[0]);
        assert(parts@[1]@ == fields_of(fen@)[1]);
        assert(parts@[2]@ == fields_of(fen@)[2]);
        assert(parts@[3]@ == fields_of(fen@)[3]);
        assert(parts@[4]@ == fields_of(fen@)[4]);
        assert(parts@[5]@ == fields_of(fen@)[5]);
    }
    let positions = match place_pieces(&parts[0]) {
        Ok(p) => p,
        Err(e) => {
            return Err(e);
        },
    };
    let stm = match parse_stm(&parts[1]) {
        Ok(s) => s,
        Err(e) => {
            return Err(e);
        },
    };
    let castling_rights = match parse_castle(&parts[2]) {
        Ok(c) => c,
        Err(e) => {
            return Err(e);
        },
    };
    let enpassant_square = match parse_enpassant(&parts[3]) {
        Ok(e) => e,
        Err(e) => {
            return Err(e);
        },
    };
    let halfmove_clock = match parse_u8(&parts[4]) {
        Some(h) => h,
        None => {
            return Err(FenError::BadHalfmove);
        },
    };
    let fullmove_counter = match parse_u8(&parts[5]) {
        Some(f) => f,
        None => {
            return Err(FenError::BadFullmove);
        },
    };
    Ok(Board {
        positions,
        stm,
        castling_rights,
        enpassant_square,
        halfmove_clock,
        fullmove_counter,
        material: [Score { mg: 0, eg: 0 }, Score { mg: 0, eg: 0 }],
        hash: 0,
    })
}

/// The FEN text of a board: placement, side to move, castling rights, en passant square in
/// lower case or `-`, halfmove clock and fullmove counter, separated by single spaces.
pub open spec fn fen_text(b: Board) -> Seq<char> {
    fen_ranks_text(b.positions.mb(), 8) + seq![' '] + (if b.stm == Side::White { seq!['w'] } else { seq!['b'] })
        + seq![' '] + castling_text(b.castling_rights.0) + seq![' '] + (match b.enpassant_square {
        Some(sq) => coord_text(sq.0 as int),
        None => seq!['-'],
    }) + seq![' '] + decimal_text(b.halfmove_clock as nat) + seq![' '] + decimal_text(b.fullmove_counter as nat)
}

/// Writes the board as a FEN string.
pub fn to_fen(board: &Board) -> (r: String)
    requires
        board.positions.wf(),
        board.enpassant_square matches Some(sq) ==> sq.0 < 64,
    ensures
        r@ == fen_text(*board),
{
    let mut fen = board.positions.to_fen_pieces();
    push_char(&mut fen, ' ');
    match board.stm {
        Side::White => push_char(&mut fen, 'w'),
        Side::Black => push_char(&mut fen, 'b'),
    }
    push_char(&mut fen, ' ');
    let c = board.castling_rights.to_string();
    fen.append(c.as_str());
    push_char(&mut fen, ' ');
    match board.enpassant_square {
        Some(sq) => {
            let t = Move::square_to_coord(sq.0 as u8);
            fen.append(t.as_str());
        },
        None => push_char(&mut fen, '-'),
    }
    push_char(&mut fen, ' ');
    let h = u64_to_text(board.halfmove_clock as u64);
    fen.append(h.as_str());
    push_char(&mut fen, ' ');
    let f = u64_to_text(board.fullmove_counter as u64);
    fen.append(f.as_str());
    proof {
        assert(fen@ =~= fen_text(*board));
    }
    fen
}

} // verus!
