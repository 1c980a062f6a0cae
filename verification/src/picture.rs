use vstd::prelude::*;
use crate::board::Board;
use crate::board_state::occupant;
use crate::components::{Side, Square, piece_icon, castling_text, square_name};
use crate::score::Score;
use crate::move_info::Move;
use crate::text::{push_char, decimal_text, u64_to_text, i64_to_text};

verus! {

/// A whole number in decimal, with a leading `-` when negative.
pub open spec fn signed_text(n: int) -> Seq<char> {
    if n < 0 {
        seq!['-'] + decimal_text((-n) as nat)
    } else {
        decimal_text(n as nat)
    }
}

/// The two halves of a score: `MG: <mg>, EG: <eg>`.
pub open spec fn score_text(s: Score) -> Seq<char> {
    "MG: "@ + signed_text(s.mg as int) + ", EG: "@ + signed_text(s.eg as int)
}

/// The cell of square `sq`: the piece's symbol, or a dot on a dark empty square, framed by
/// spaces and closed by a bar.
pub open spec fn cell_text(b: Board, sq: int) -> Seq<char> {
    match occupant(b.positions.mb()[sq]) {
        Some((p, s)) => seq![' ', piece_icon(p, s), ' ', '|'],
        None => if (sq / 8 + sq % 8) % 2 == 1 {
            seq![' ', '\u{00B7}', ' ', '|']
        } else {
            seq![' ', ' ', ' ', '|']
        },
    }
}

/// The first `n` cells of rank `rank`, file A first.
pub open spec fn cells_text(b: Board, rank: int, n: int) -> Seq<char>
    decreases n,
{
    if n <= 0 {
        Seq::empty()
    } else {
        cells_text(b, rank, n - 1) + cell_text(b, rank * 8 + n - 1)
    }
}

/// One rank of the picture: its number, its cells, and the frame line below it.
pub open spec fn rank_text(b: Board, rank: int) -> Seq<char> {
    seq![(rank + '1' as int) as char, ' ', '|'] + cells_text(b, rank, 8) + "\n"@
        + "  +---+---+---+---+---+---+---+---+\n"@
}

/// The top `k` ranks of the picture, rank 8 first.
pub open spec fn ranks_text(b: Board, k: int) -> Seq<char>
    decreases k,
{
    if k <= 0 {
        Seq::empty()
    } else {
        ranks_text(b, k - 1) + rank_text(b, 8 - k)
    }
}

/// The picture of a board: the framed grid with rank numbers and file letters, then the side
/// to move, the castling rights, the en passant square, the two clocks and the material.
pub open spec fn board_picture(b: Board) -> Seq<char> {
    "  +---+---+---+---+---+---+---+---+\n"@ + ranks_text(b, 8) + "    A   B   C   D   E   F   G   H  \n"@
        + "\nSide to move: "@ + (if b.stm == Side::White { "White"@ } else { "Black"@ }) + "\n"@
        + "Castling rights: "@ + castling_text(b.castling_rights.0) + "\n"@
        + "En passant square: "@ + (match b.enpassant_square {
            Some(sq) => square_name(sq.0 as int),
            None => "-"@,
        }) + "\n"@
        + "Halfmove clock: "@ + decimal_text(b.halfmove_clock as nat) + "\n"@
        + "Fullmove counter: "@ + decimal_text(b.fullmove_counter as nat) + "\n"@
        + "Material balance: W: "@ + score_text(b.material[0]) + " B: "@ + score_text(b.material[1]) + "\n"@
}

/// The binary digit of `b` (0 or 1).
pub open spec fn bit_char(b: int) -> char {
    if b == 1 { '1' } else { '0' }
}

/// The fields of a packed move, one line each: its four flag bits in binary, then its
/// destination and its origin square numbers.
pub open spec fn move_fields_text(m: u16) -> Seq<char> {
    let n = (m as int) / 4096;
    "Flags: "@ + seq![bit_char(n / 8 % 2), bit_char(n / 4 % 2), bit_char(n / 2 % 2), bit_char(n % 2)] + "\n"@
        + "To square: "@ + decimal_text((((m as int) / 64) % 64) as nat) + "\n"@
        + "From square: "@ + decimal_text(((m as int) % 64) as nat) + "\n"@
}

impl Move {
    /// The fields of the move as text, as [`move_fields_text`] gives them.
    pub fn to_string(&self) -> (r: String)
        ensures
            r@ == move_fields_text(self.0),
    {
        let val = self.0;
        let flags = val >> 12u16;
        let to_square = (val >> 6u16) & 0x3F;
        let from_square = val & 0x3F;
        proof {
            assert(flags == val / 4096) by (bit_vector)
                requires flags == val >> 12u16;
            assert(to_square == (val / 64) % 64) by (bit_vector)
                requires to_square == (val >> 6u16) & 0x3F;
            assert(from_square == val % 64) by (bit_vector)
                requires from_square == val & 0x3F;
        }
        let mut s = String::from_str("Flags: ");
        push_char(&mut s, if (flags / 8) % 2 == 1 { '1' } else { '0' });
        push_char(&mut s, if (flags / 4) % 2 == 1 { '1' } else { '0' });
        push_char(&mut s, if (flags / 2) % 2 == 1 { '1' } else { '0' });
        push_char(&mut s, if flags % 2 == 1 { '1' } else { '0' });
        s.append("\n");
        s.append("To square: ");
        s.append(u64_to_text(to_square as u64).as_str());
        s.append("\n");
        s.append("From square: ");
        s.append(u64_to_text(from_square as u64).as_str());
        s.append("\n");
        proof {
            assert(s@ =~= move_fields_text(self.0));
        }
        s
    }
}

impl Score {
    /// The score as text: `MG: <mg>, EG: <eg>`.
    pub fn to_string(&self) -> (r: String)
        ensures
            r@ == score_text(*self),
    {
        let mut s = String::from_str("MG: ");
        s.append(i64_to_text(self.mg as i64).as_str());
        s.append(", EG: ");
        s.append(i64_to_text(self.eg as i64).as_str());
        s
    }
}

impl Board {
    /// The picture of the board, as [`board_picture`] describes it.
    pub fn to_string(&self) -> (r: String)
        requires
            self.wf(),
        ensures
            r@ == board_picture(*self),
    {
        let mut s = String::from_str("  +---+---+---+---+---+---+---+---+\n");
        let ghost head = s@;
        let mut k: usize = 0;
        while k < 8
            invariant
                k <= 8,
                self.wf(),
                s@ == head + ranks_text(*self, k as int),
            decreases 8 - k,
        {
            let rank = 7 - k;
            let ghost before = s@;
            push_char(&mut s, ((rank as u8) + 49u8) as char);
            push_char(&mut s, ' ');
            push_char(&mut s, '|');
            let ghost start = s@;
            let mut file: usize = 0;
            while file < 8
                invariant
                    file <= 8,
                    rank < 8,
                    self.wf(),
                    s@ == start + cells_text(*self, rank as int, file as int),
                decreases 8 - file,
            {
                let sq = rank * 8 + file;
                let ghost mid = s@;
                match self.positions.get_piece_at(&Square(sq)) {
                    Some((p, side)) => {
                        push_char(&mut s, ' ');
                        push_char(&mut s, p.icon(side));
                        push_char(&mut s, ' ');
                        push_char(&mut s, '|');
                    },
                    None => {
                        if (rank + file) % 2 == 1 {
                            s.append(" \u{00B7} |");
                        } else {
                            s.append("   |");
                        }
                    },
                }
                proof {
                    assert(s@ =~= mid + cell_text(*self, sq as int)) by {
                        reveal_strlit(" \u{00B7} |");
                        reveal_strlit("   |");
                        assert(sq as int / 8 == rank && sq as int % 8 == file);
                    }
                    assert(start + cells_text(*self, rank as int, file + 1) =~= start + cells_text(*self, rank as int, file as int) + cell_text(*self, sq as int));
                }
                file = file + 1;
            }
            s.append("\n");
            s.append("  +---+---+---+---+---+---+---+---+\n");
            proof {
                assert(ranks_text(*self, k + 1) == ranks_text(*self, k as int) + rank_text(*self, rank as int));
                assert(s@ =~= head + ranks_text(*self, k + 1));
            }
            k = k + 1;
        }
        s.append("    A   B   C   D   E   F   G   H  \n");
        s.append("\nSide to move: ");
        s.append(self.stm.to_string().as_str());
        s.append("\n");
        s.append("Castling rights: ");
        s.append(self.castling_rights.to_string().as_str());
        s.append("\n");
        s.append("En passant square: ");
        match self.enpassant_square {
            Some(sq) => s.append(sq.to_string().as_str()),
            None => s.append("-"),
        }
        s.append("\n");
        s.append("Halfmove clock: ");
        s.append(u64_to_text(self.halfmove_clock as u64).as_str());
        s.append("\n");
        s.append("Fullmove counter: ");
        s.append(u64_to_text(self.fullmove_counter as u64).as_str());
        s.append("\n");
        s.append("Material balance: W: ");
        s.append(self.material[0].to_string().as_str());
        s.append(" B: ");
        s.append(self.material[1].to_string().as_str());
        s.append("\n");
        proof {
            assert(s@ =~= board_picture(*self));
        }
        s
    }
}

} // verus!
