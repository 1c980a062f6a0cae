use vstd::prelude::*;
use crate::bitboard::{BitBoard, bit_of, lemma_bits_ext, lemma_bit_zero, group_bits};
use crate::components::{Piece, PieceInfo, Side, Square, piece_char};
use crate::text::push_char;

verus! {

broadcast use group_bits;

/// Why a change to the piece placement was refused.
#[derive(Debug, PartialEq, Eq, Structural, Clone, Copy)]
pub enum BoardError {
    /// A piece already stands on the square.
    SquareOccupied,
    /// The square does not hold the piece named.
    NoSuchPiece,
    /// No piece stands on the square to move from.
    EmptySquare,
    /// The move cannot be made on this board.
    IllegalMove,
    /// A move record that does not fit the board.
    BadMoveInfo,
}

/// Where the pieces stand: one bitboard per side, one per side and piece kind,
/// and a square-by-square list of what stands where.
#[derive(Debug, Hash, PartialEq, Eq, Clone, Copy)]
pub struct BoardState {
    all_sides: [BitBoard; 2],
    all_pieces: [[BitBoard; 6]; 2],
    mailbox: [Option<PieceInfo>; 64],
}

/// What stands on a square, given as a piece and side pair.
pub open spec fn occupant(e: Option<PieceInfo>) -> Option<(Piece, Side)> {
    match e {
        Some(info) => Some((info.piece, info.side)),
        None => None,
    }
}

impl BoardState {
    /// What stands on each of the 64 squares.
    pub closed spec fn mb(&self) -> Seq<Option<PieceInfo>> {
        self.mailbox@
    }

    /// The squares of `side`'s pieces.
    pub closed spec fn side_bb(&self, side: Side) -> u64 {
        self.all_sides[side.spec_index() as int].0
    }

    /// The squares of `side`'s pieces of kind `piece`.
    pub closed spec fn piece_bb(&self, side: Side, piece: Piece) -> u64 {
        self.all_pieces[side.spec_index() as int][piece.spec_index() as int].0
    }

    /// The bitboards agree with the square list.
    pub open spec fn wf(&self) -> bool {
        &&& self.mb().len() == 64
        &&& forall|sq: int, s: Side, p: Piece|
            0 <= sq < 64 ==> (#[trigger] bit_of(self.piece_bb(s, p), sq) <==> self.mb()[sq] == Some(
                PieceInfo { piece: p, side: s },
            ))
        &&& forall|sq: int, s: Side|
            0 <= sq < 64 ==> (#[trigger] bit_of(self.side_bb(s), sq) <==> (self.mb()[sq] is Some
                && self.mb()[sq]->0.side == s))
    }

    /// The square list has 64 entries.
    pub proof fn lemma_mb_len(&self)
        ensures
            self.mb().len() == 64,
    {
    }

    /// Two placements with the same square list are equal.
    pub proof fn lemma_eq_from_mb(a: BoardState, b: BoardState)
        requires
            a.wf(),
            b.wf(),
            a.mb() == b.mb(),
        ensures
            a == b,
    {
        assert forall|s: Side, p: Piece| a.piece_bb(s, p) == b.piece_bb(s, p) by {
            assert forall|i: int| 0 <= i < 64 implies bit_of(a.piece_bb(s, p), i) == bit_of(b.piece_bb(s, p), i) by {
            }
            lemma_bits_ext(a.piece_bb(s, p), b.piece_bb(s, p));
        }
        assert forall|s: Side| a.side_bb(s) == b.side_bb(s) by {
            assert forall|i: int| 0 <= i < 64 implies bit_of(a.side_bb(s), i) == bit_of(b.side_bb(s), i) by {
            }
            lemma_bits_ext(a.side_bb(s), b.side_bb(s));
        }
        let w = Side::White;
        let k = Side::Black;
        assert(a.all_sides[0] == b.all_sides[0]) by {
            assert(a.side_bb(w) == b.side_bb(w));
        }
        assert(a.all_sides[1] == b.all_sides[1]) by {
            assert(a.side_bb(k) == b.side_bb(k));
        }
        assert(a.all_sides =~= b.all_sides);
        assert forall|si: int| 0 <= si < 2 implies a.all_pieces[si] =~= b.all_pieces[si] by {
            let s = Side::from_index(si);
            assert(s.spec_index() == si);
            assert forall|pi: int| 0 <= pi < 6 implies a.all_pieces[si][pi] == b.all_pieces[si][pi] by {
                let p = Piece::from_index(pi);
                assert(p.spec_index() == pi);
                assert(a.piece_bb(s, p) == b.piece_bb(s, p));
            }
        }
        assert(a.all_pieces =~= b.all_pieces);
        assert(a.mailbox =~= b.mailbox);
    }

    /// A board with no pieces.
    pub fn new() -> (r: Self)
        ensures
            r.wf(),
            forall|i: int| 0 <= i < 64 ==> #[trigger] r.mb()[i] is None,
    {
        let r = Self {
            all_sides: [BitBoard(0), BitBoard(0)],
            all_pieces: [[BitBoard(0); 6], [BitBoard(0); 6]],
            mailbox: [None; 64],
        };
        proof {
            assert forall|sq: int, s: Side, p: Piece| 0 <= sq < 64 implies !bit_of(r.piece_bb(s, p), sq) by {
                lemma_bit_zero(sq);
            }
            assert forall|sq: int, s: Side| 0 <= sq < 64 implies !bit_of(r.side_bb(s), sq) by {
                lemma_bit_zero(sq);
            }
        }
        r
    }

    /// What stands on each square.
    pub fn mailbox(&self) -> (r: &[Option<PieceInfo>; 64])
        ensures
            r@ == self.mb(),
    {
        &self.mailbox
    }

    /// The squares of `side`'s pieces of kind `piece`.
    pub fn get_piece_bb(&self, side: Side, piece: Piece) -> (r: &BitBoard)
        ensures
            r.0 == self.piece_bb(side, piece),
    {
        &self.all_pieces[side.index()][piece.index()]
    }

    /// The bitboards of `side`'s six piece kinds, in index order.
    pub fn get_colored_pieces(&self, side: Side) -> (r: &[BitBoard; 6])
        ensures
            forall|i: int| 0 <= i < 6 ==> #[trigger] r@[i].0 == self.piece_bb(side, Piece::from_index(i)),
    {
        proof {
            assert forall|i: int| 0 <= i < 6 implies Piece::from_index(i).spec_index() == i by {}
        }
        &self.all_pieces[side.index()]
    }

    /// The squares of `side`'s pieces.
    pub fn get_side_bb(&self, side: Side) -> (r: &BitBoard)
        ensures
            r.0 == self.side_bb(side),
    {
        &self.all_sides[side.index()]
    }

    /// The squares of `side`'s pieces of kind `piece`, to be changed in place. Nothing else
    /// changes; what is written through the reference becomes that board, and the side board
    /// and square list are not kept in step with it.
    pub fn get_piece_bb_mut(&mut self, side: Side, piece: Piece) -> (r: &mut BitBoard)
        ensures
            r.0 == old(self).piece_bb(side, piece),
            final(self).piece_bb(side, piece) == final(r).0,
            forall|s: Side, p: Piece| !(s == side && p == piece) ==> #[trigger] final(self).piece_bb(s, p) == old(self).piece_bb(s, p),
            forall|s: Side| #[trigger] final(self).side_bb(s) == old(self).side_bb(s),
            final(self).mb() == old(self).mb(),
    {
        &mut self.all_pieces[side.index()][piece.index()]
    }

    /// The bitboards of `side`'s six piece kinds, to be changed in place. Nothing else
    /// changes; what is written through the reference becomes `side`'s boards.
    pub fn get_colored_pieces_mut(&mut self, side: Side) -> (r: &mut [BitBoard; 6])
        ensures
            forall|i: int| 0 <= i < 6 ==> #[trigger] r@[i].0 == old(self).piece_bb(side, Piece::from_index(i)),
            forall|i: int| 0 <= i < 6 ==> #[trigger] final(self).piece_bb(side, Piece::from_index(i)) == final(r)@[i].0,
            forall|p: Piece| #[trigger] final(self).piece_bb(side.spec_flip(), p) == old(self).piece_bb(side.spec_flip(), p),
            forall|s: Side| #[trigger] final(self).side_bb(s) == old(self).side_bb(s),
            final(self).mb() == old(self).mb(),
    {
        proof {
            assert forall|i: int| 0 <= i < 6 implies Piece::from_index(i).spec_index() == i by {}
        }
        &mut self.all_pieces[side.index()]
    }

    /// The squares of `side`'s pieces, to be changed in place. Nothing else changes; what is
    /// written through the reference becomes `side`'s board, and the square list is not kept
    /// in step with it.
    pub fn get_side_bb_mut(&mut self, side: Side) -> (r: &mut BitBoard)
        ensures
            r.0 == old(self).side_bb(side),
            final(self).side_bb(side) == final(r).0,
            final(self).side_bb(side.spec_flip()) == old(self).side_bb(side.spec_flip()),
            forall|s: Side, p: Piece| #[trigger] final(self).piece_bb(s, p) == old(self).piece_bb(s, p),
            final(self).mb() == old(self).mb(),
    {
        &mut self.all_sides[side.index()]
    }

    /// Rooks and queens of `side`.
    pub fn get_orhto_sliders_bb(&self, side: Side) -> (r: BitBoard)
        ensures
            r.0 == self.piece_bb(side, Piece::Rook) | self.piece_bb(side, Piece::Queen),
    {
        self.all_pieces[side.index()][Piece::rook()].or(self.all_pieces[side.index()][Piece::queen()])
    }

    /// Rooks and queens of `side`.
    pub fn get_ortho_sliders_bb(&self, side: Side) -> (r: BitBoard)
        ensures
            r.0 == self.piece_bb(side, Piece::Rook) | self.piece_bb(side, Piece::Queen),
    {
        self.get_orhto_sliders_bb(side)
    }

    /// Bishops and queens of `side`.
    pub fn get_diag_sliders_bb(&self, side: Side) -> (r: BitBoard)
        ensures
            r.0 == self.piece_bb(side, Piece::Bishop) | self.piece_bb(side, Piece::Queen),
    {
        self.all_pieces[side.index()][Piece::bishop()].or(self.all_pieces[side.index()][Piece::queen()])
    }

    /// Whether one of `side`'s pieces stands on `square`.
    pub fn square_belongs_to(&self, side: Side, square: usize) -> (r: bool)
        requires
            square < 64,
        ensures
            r == bit_of(self.side_bb(side), square as int),
    {
        self.all_sides[side.index()].contains_square(square)
    }

    /// Whether any piece stands on `square`.
    pub fn is_occupied(&self, square: usize) -> (r: bool)
        requires
            square < 64,
            self.wf(),
        ensures
            r == self.mb()[square as int] is Some,
    {
        let r = self.all_sides[Side::White.index()].contains_square(square)
            || self.all_sides[Side::Black.index()].contains_square(square);
        proof {
            assert(bit_of(self.side_bb(Side::White), square as int) == bit_of(self.all_sides[0].0, square as int));
            assert(bit_of(self.side_bb(Side::Black), square as int) == bit_of(self.all_sides[1].0, square as int));
            if self.mb()[square as int] is Some {
                let sd = self.mb()[square as int]->0.side;
                assert(bit_of(self.side_bb(sd), square as int));
            }
        }
        r
    }

    /// The piece and side on `square`, if any.
    pub fn get_piece_at(&self, square: &Square) -> (r: Option<(Piece, Side)>)
        requires
            square.0 < 64,
        ensures
            r == occupant(self.mb()[square.0 as int]),
    {
        match self.mailbox[square.index()] {
            Some(info) => Some((info.piece, info.side)),
            None => None,
        }
    }

    /// All occupied squares.
    pub fn get_occupied_bb(&self) -> (r: BitBoard)
        ensures
            r.0 == self.side_bb(Side::White) | self.side_bb(Side::Black),
    {
        self.all_sides[Side::White.index()].or(self.all_sides[Side::Black.index()])
    }

    /// Places a piece on an empty square.
    pub fn set(&mut self, side_to_set: Side, piece_to_set: Piece, index_to_set: usize) -> (r: Result<(), BoardError>)
        requires
            old(self).wf(),
            index_to_set < 64,
        ensures
            final(self).wf(),
            r is Ok <==> old(self).mb()[index_to_set as int] is None,
            r is Ok ==> final(self).mb() == old(self).mb().update(
                index_to_set as int,
                Some(PieceInfo { piece: piece_to_set, side: side_to_set }),
            ),
            r is Err ==> r == Err::<(), BoardError>(BoardError::SquareOccupied) && *final(self) == *old(self),
    {
        if self.mailbox[index_to_set].is_some() {
            return Err(BoardError::SquareOccupied);
        }
        let si = side_to_set.index();
        let pi = piece_to_set.index();
        let ghost old_self = *self;
        let mut row = self.all_pieces[si];
        let mut bb = row[pi];
        bb.set(index_to_set);
        row[pi] = bb;
        self.all_pieces[si] = row;
        let mut sb = self.all_sides[si];
        sb.set(index_to_set);
        self.all_sides[si] = sb;
        self.mailbox[index_to_set] = Some(PieceInfo::new(piece_to_set, side_to_set));
        proof {
            assert forall|sq: int, s: Side, p: Piece| 0 <= sq < 64 implies
                (#[trigger] bit_of(self.piece_bb(s, p), sq) <==> self.mb()[sq] == Some(PieceInfo { piece: p, side: s })) by {
                assert(bit_of(old_self.piece_bb(s, p), sq) <==> old_self.mb()[sq] == Some(PieceInfo { piece: p, side: s }));
                if s == side_to_set && p == piece_to_set {
                    assert(self.piece_bb(s, p) == bb.0);
                    assert(old_self.piece_bb(s, p) == old_self.all_pieces[si as int][pi as int].0);
                } else {
                    assert(self.piece_bb(s, p) == old_self.piece_bb(s, p));
                }
            }
            assert forall|sq: int, s: Side| 0 <= sq < 64 implies
                (#[trigger] bit_of(self.side_bb(s), sq) <==> (self.mb()[sq] is Some && self.mb()[sq]->0.side == s)) by {
                assert(bit_of(old_self.side_bb(s), sq) <==> (old_self.mb()[sq] is Some && old_self.mb()[sq]->0.side == s));
                if s == side_to_set {
                    assert(self.side_bb(s) == sb.0);
                } else {
                    assert(self.side_bb(s) == old_self.side_bb(s));
                }
            }
        }
        Ok(())
    }

    /// Takes a piece of the given kind and side off a square.
    pub fn remove_piece(&mut self, side_to_capture: Side, piece_to_capture: Piece, index_to_capture: usize) -> (r: Result<(), BoardError>)
        requires
            old(self).wf(),
            index_to_capture < 64,
        ensures
            final(self).wf(),
            r is Ok <==> old(self).mb()[index_to_capture as int] == Some(
                PieceInfo { piece: piece_to_capture, side: side_to_capture },
            ),
            r is Ok ==> final(self).mb() == old(self).mb().update(index_to_capture as int, None),
            r is Err ==> r == Err::<(), BoardError>(BoardError::NoSuchPiece) && *final(self) == *old(self),
    {
        match self.mailbox[index_to_capture] {
            Some(info) => {
                if !(info.piece == piece_to_capture && info.side == side_to_capture) {
                    return Err(BoardError::NoSuchPiece);
                }
            },
            None => {
                return Err(BoardError::NoSuchPiece);
            },
        }
        let si = side_to_capture.index();
        let pi = piece_to_capture.index();
        let ghost old_self = *self;
        let mut row = self.all_pieces[si];
        let mut bb = row[pi];
        bb.capture(index_to_capture);
        row[pi] = bb;
        self.all_pieces[si] = row;
        let mut sb = self.all_sides[si];
        sb.capture(index_to_capture);
        self.all_sides[si] = sb;
        self.mailbox[index_to_capture] = None;
        proof {
            assert forall|sq: int, s: Side, p: Piece| 0 <= sq < 64 implies
                (#[trigger] bit_of(self.piece_bb(s, p), sq) <==> self.mb()[sq] == Some(PieceInfo { piece: p, side: s })) by {
                assert(bit_of(old_self.piece_bb(s, p), sq) <==> old_self.mb()[sq] == Some(PieceInfo { piece: p, side: s }));
                if s == side_to_capture && p == piece_to_capture {
                    assert(self.piece_bb(s, p) == bb.0);
                } else {
                    assert(self.piece_bb(s, p) == old_self.piece_bb(s, p));
                }
            }
            assert forall|sq: int, s: Side| 0 <= sq < 64 implies
                (#[trigger] bit_of(self.side_bb(s), sq) <==> (self.mb()[sq] is Some && self.mb()[sq]->0.side == s)) by {
                assert(bit_of(old_self.side_bb(s), sq) <==> (old_self.mb()[sq] is Some && old_self.mb()[sq]->0.side == s));
                if s == side_to_capture {
                    assert(self.side_bb(s) == sb.0);
                } else {
                    assert(self.side_bb(s) == old_self.side_bb(s));
                }
            }
        }
        Ok(())
    }

    /// Moves whatever stands on `from` to the empty square `to`; captures are not handled here.
    pub fn move_piece(&mut self, from: Square, to: Square) -> (r: Result<(), BoardError>)
        requires
            old(self).wf(),
            from.0 < 64,
            to.0 < 64,
        ensures
            final(self).wf(),
            r is Ok <==> (old(self).mb()[from.0 as int] is Some && old(self).mb()[to.0 as int] is None),
            r is Ok ==> final(self).mb() == old(self).mb().update(from.0 as int, None).update(
                to.0 as int,
                old(self).mb()[from.0 as int],
            ),
            r is Err ==> *final(self) == *old(self),
            r matches Err(e) ==> (e == BoardError::EmptySquare <==> old(self).mb()[from.0 as int] is None),
            r matches Err(e) ==> (e == BoardError::EmptySquare || e == BoardError::SquareOccupied),
    {
        let from_index = from.index();
        let to_index = to.index();
        let piece_info = match self.mailbox[from_index] {
            Some(info) => info,
            None => {
                return Err(BoardError::EmptySquare);
            },
        };
        if self.mailbox[to_index].is_some() {
            return Err(BoardError::SquareOccupied);
        }
        let side_index = piece_info.side.index();
        let pi = piece_info.piece.index();
        let ghost old_self = *self;
        let mut row = self.all_pieces[side_index];
        let mut bb = row[pi];
        bb.capture(from_index);
        bb.set(to_index);
        row[pi] = bb;
        self.all_pieces[side_index] = row;
        let mut sb = self.all_sides[side_index];
        sb.capture(from_index);
        sb.set(to_index);
        self.all_sides[side_index] = sb;
        self.mailbox[from_index] = None;
        self.mailbox[to_index] = Some(PieceInfo::new(piece_info.piece, piece_info.side));
        proof {
            assert forall|sq: int, s: Side, p: Piece| 0 <= sq < 64 implies
                (#[trigger] bit_of(self.piece_bb(s, p), sq) <==> self.mb()[sq] == Some(PieceInfo { piece: p, side: s })) by {
                assert(bit_of(old_self.piece_bb(s, p), sq) <==> old_self.mb()[sq] == Some(PieceInfo { piece: p, side: s }));
                if s == piece_info.side && p == piece_info.piece {
                    assert(self.piece_bb(s, p) == bb.0);
                } else {
                    assert(self.piece_bb(s, p) == old_self.piece_bb(s, p));
                }
            }
            assert forall|sq: int, s: Side| 0 <= sq < 64 implies
                (#[trigger] bit_of(self.side_bb(s), sq) <==> (self.mb()[sq] is Some && self.mb()[sq]->0.side == s)) by {
                assert(bit_of(old_self.side_bb(s), sq) <==> (old_self.mb()[sq] is Some && old_self.mb()[sq]->0.side == s));
                if s == piece_info.side {
                    assert(self.side_bb(s) == sb.0);
                } else {
                    assert(self.side_bb(s) == old_self.side_bb(s));
                }
            }
            assert(self.mb() =~= old_self.mb().update(from.0 as int, None).update(to.0 as int, old_self.mb()[from.0 as int]));
        }
        Ok(())
    }

    /// The piece placement part of a FEN string: ranks from the eighth down, separated by `/`,
    /// each listing piece letters and counts of empty squares.
    pub fn to_fen_pieces(&self) -> (r: String)
        requires
            self.wf(),
        ensures
            r@ == fen_ranks_text(self.mb(), 8),
    {
        let mut fen = String::new();
        let mut line: usize = 0;
        while line < 8
            invariant
                line <= 8,
                self.wf(),
                fen@ == fen_ranks_text(self.mb(), line as int),
            decreases 8 - line,
        {
            let rank = 7 - line;
            let mut empty_count: u8 = 0;
            let mut file: usize = 0;
            let ghost before = fen@;
            while file < 8
                invariant
                    file <= 8,
                    line < 8,
                    rank == 7 - line,
                    self.wf(),
                    empty_count <= file,
                    fen@ == before + fen_rank_prefix(self.mb(), rank as int, file as int).0,
                    empty_count == fen_rank_prefix(self.mb(), rank as int, file as int).1,
                decreases 8 - file,
            {
                let square_index = rank * 8 + file;
                match self.mailbox[square_index] {
                    Some(info) => {
                        if empty_count > 0 {
                            push_char(&mut fen, ((empty_count) + 48u8) as char);
                            empty_count = 0;
                        }
                        push_char(&mut fen, piece_letter(info.side, info.piece));
                    },
                    None => {
                        empty_count = empty_count + 1;
                    },
                }
                proof {
                    assert(fen@ =~= before + fen_rank_prefix(self.mb(), rank as int, file as int + 1).0);
                }
                file = file + 1;
            }
            if empty_count > 0 {
                push_char(&mut fen, ((empty_count) + 48u8) as char);
            }
            if rank > 0 {
                push_char(&mut fen, '/');
            }
            proof {
                assert(fen@ =~= fen_ranks_text(self.mb(), line as int + 1));
            }
            line = line + 1;
        }
        fen
    }
}

/// The FEN letter of a piece.
pub fn piece_letter(side: Side, piece: Piece) -> (r: char)
    ensures
        r == piece_char(side, piece),
{
    let white = side == Side::White;
    match piece {
        Piece::Pawn => if white { 'P' } else { 'p' },
        Piece::Knight => if white { 'N' } else { 'n' },
        Piece::Bishop => if white { 'B' } else { 'b' },
        Piece::Rook => if white { 'R' } else { 'r' },
        Piece::Queen => if white { 'Q' } else { 'q' },
        Piece::King => if white { 'K' } else { 'k' },
    }
}

/// The text written for the first `n` files of `rank`, and the count of empty squares
/// not yet written at that point.
pub open spec fn fen_rank_prefix(mb: Seq<Option<PieceInfo>>, rank: int, n: int) -> (Seq<char>, u8)
    decreases n,
{
    if n <= 0 {
        (Seq::empty(), 0u8)
    } else {
        let (t, e) = fen_rank_prefix(mb, rank, n - 1);
        match mb[rank * 8 + n - 1] {
            Some(info) => (
                (if e > 0 { t.push(((e as int) + '0' as int) as char) } else { t }).push(
                    piece_char(info.side, info.piece),
                ),
                0u8,
            ),
            None => (t, (e + 1) as u8),
        }
    }
}

/// The text of one rank, with its trailing count and a `/` unless it is the first rank.
pub open spec fn fen_rank_text(mb: Seq<Option<PieceInfo>>, rank: int) -> Seq<char> {
    let (t, e) = fen_rank_prefix(mb, rank, 8);
    let t2 = if e > 0 { t.push(((e as int) + '0' as int) as char) } else { t };
    if rank > 0 { t2.push('/') } else { t2 }
}

/// The text of the first `lines` ranks, from the eighth down.
pub open spec fn fen_ranks_text(mb: Seq<Option<PieceInfo>>, lines: int) -> Seq<char>
    decreases lines,
{
    if lines <= 0 {
        Seq::empty()
    } else {
        fen_ranks_text(mb, lines - 1) + fen_rank_text(mb, 7 - (lines - 1))
    }
}


impl Default for BoardState {
    /// A board with no pieces.
    fn default() -> (r: Self)
        ensures
            r.wf(),
            forall|i: int| 0 <= i < 64 ==> #[trigger] r.mb()[i] is None,
    {
        BoardState::new()
    }
}

} // verus!
