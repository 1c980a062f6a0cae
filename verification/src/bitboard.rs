use vstd::prelude::*;
use vstd::std_specs::bits::{u64_trailing_zeros, u64_leading_zeros, axiom_u64_trailing_zeros, axiom_u64_leading_zeros};

verus! {

/// True when square `i` (0..64) is set in the 64-bit word `x`.
pub open spec fn bit_of(x: u64, i: int) -> bool {
    0 <= i < 64 && (x >> (i as u64)) & 1u64 == 1u64
}

/// Number of set bits of `x` among the squares `0..n`.
pub open spec fn count_bits(x: u64, n: int) -> nat
    decreases n,
{
    if n <= 0 {
        0
    } else {
        count_bits(x, n - 1) + (if bit_of(x, n - 1) { 1nat } else { 0nat })
    }
}

/// `i` is the lowest set square of `x`.
pub open spec fn is_lowest_bit(x: u64, i: int) -> bool {
    &&& 0 <= i < 64
    &&& bit_of(x, i)
    &&& forall|j: int| 0 <= j < i ==> !bit_of(x, j)
}

/// `i` is the highest set square of `x`.
pub open spec fn is_highest_bit(x: u64, i: int) -> bool {
    &&& 0 <= i < 64
    &&& bit_of(x, i)
    &&& forall|j: int| i < j < 64 ==> !bit_of(x, j)
}

pub broadcast proof fn lemma_bit_or(a: u64, b: u64, i: int)
    requires
        0 <= i < 64,
    ensures
        #[trigger] bit_of(a | b, i) == (bit_of(a, i) || bit_of(b, i)),
{
    let j = i as u64;
    assert(((a | b) >> j) & 1u64 == 1u64 <==> ((a >> j) & 1u64 == 1u64 || (b >> j) & 1u64 == 1u64))
        by (bit_vector);
}

pub broadcast proof fn lemma_bit_and(a: u64, b: u64, i: int)
    requires
        0 <= i < 64,
    ensures
        #[trigger] bit_of(a & b, i) == (bit_of(a, i) && bit_of(b, i)),
{
    let j = i as u64;
    assert(((a & b) >> j) & 1u64 == 1u64 <==> ((a >> j) & 1u64 == 1u64 && (b >> j) & 1u64 == 1u64))
        by (bit_vector);
}

pub broadcast proof fn lemma_bit_xor(a: u64, b: u64, i: int)
    requires
        0 <= i < 64,
    ensures
        #[trigger] bit_of(a ^ b, i) == (bit_of(a, i) != bit_of(b, i)),
{
    let j = i as u64;
    assert(((a ^ b) >> j) & 1u64 == 1u64 <==> ((a >> j) & 1u64 == 1u64) != ((b >> j) & 1u64 == 1u64))
        by (bit_vector);
}

pub broadcast proof fn lemma_bit_not(a: u64, i: int)
    requires
        0 <= i < 64,
    ensures
        #[trigger] bit_of(!a, i) == !bit_of(a, i),
{
    let j = i as u64;
    assert(j < 64 ==> (((!a) >> j) & 1u64 == 1u64 <==> !((a >> j) & 1u64 == 1u64))) by (bit_vector);
}

pub broadcast proof fn lemma_bit_single(p: u64, i: int)
    requires
        0 <= i < 64,
        p < 64,
    ensures
        #[trigger] bit_of(1u64 << p, i) == (i == p),
{
    let j = i as u64;
    assert(j < 64 && p < 64 ==> (((1u64 << p) >> j) & 1u64 == 1u64 <==> j == p)) by (bit_vector);
}

pub proof fn lemma_bit_zero(i: int)
    ensures
        !bit_of(0u64, i),
{
    if 0 <= i < 64 {
        let j = i as u64;
        assert((0u64 >> j) & 1u64 == 0u64) by (bit_vector);
    }
}

pub proof fn lemma_bit_full(i: int)
    requires
        0 <= i < 64,
    ensures
        bit_of(0xffff_ffff_ffff_ffffu64, i),
{
    let j = i as u64;
    assert(j < 64 ==> (0xffff_ffff_ffff_ffffu64 >> j) & 1u64 == 1u64) by (bit_vector);
}

/// Two words that agree on all 64 squares are equal.
pub proof fn lemma_bits_ext(a: u64, b: u64)
    requires
        forall|i: int| 0 <= i < 64 ==> bit_of(a, i) == bit_of(b, i),
    ensures
        a == b,
{
    let x = a ^ b;
    assert forall|i: int| 0 <= i < 64 implies !bit_of(x, i) by {
        lemma_bit_xor(a, b, i);
    }
    lemma_zero_from_bits(x);
    assert(x == 0u64 ==> a == b) by (bit_vector)
        requires x == a ^ b;
}

/// A word with no set square is zero.
pub proof fn lemma_zero_from_bits(x: u64)
    requires
        forall|i: int| 0 <= i < 64 ==> !bit_of(x, i),
    ensures
        x == 0,
{
    if x != 0 {
        axiom_u64_trailing_zeros(x);
        let t = u64_trailing_zeros(x);
        assert(bit_of(x, t as int));
    }
}

/// `x` is zero exactly when it has no set square.
pub proof fn lemma_nonzero_has_bit(x: u64)
    ensures
        x != 0 <==> exists|i: int| 0 <= i < 64 && bit_of(x, i),
{
    if x != 0 {
        axiom_u64_trailing_zeros(x);
        let t = u64_trailing_zeros(x) as int;
        assert(bit_of(x, t));
    } else {
        assert forall|i: int| 0 <= i < 64 implies !bit_of(x, i) by {
            lemma_bit_zero(i);
        }
    }
}

pub proof fn lemma_lowest_bit(x: u64)
    requires
        x != 0,
    ensures
        is_lowest_bit(x, u64_trailing_zeros(x) as int),
{
    axiom_u64_trailing_zeros(x);
    let t = u64_trailing_zeros(x);
    assert forall|j: int| 0 <= j < t implies !bit_of(x, j) by {
        let k = j as u64;
        assert((x >> k) & 1u64 == 0u64);
    }
}

pub proof fn lemma_highest_bit(x: u64)
    requires
        x != 0,
    ensures
        is_highest_bit(x, 63 - u64_leading_zeros(x)),
{
    axiom_u64_leading_zeros(x);
    let l = u64_leading_zeros(x);
    let h = (63 - l) as u64;
    assert((x >> h) & 1u64 != 0u64);
    assert(((x >> h) & 1u64 != 0u64) ==> (x >> h) & 1u64 == 1u64) by (bit_vector);
    assert forall|j: int| 63 - l < j < 64 implies !bit_of(x, j) by {
        let k = j as u64;
        assert((x >> k) & 1u64 == 0u64);
    }
}

/// Clearing the lowest set bit with `x & (x - 1)`.
pub proof fn lemma_clear_lowest(x: u64)
    requires
        x != 0,
    ensures
        forall|j: int|
            #![trigger bit_of(x & ((x - 1) as u64), j)]
            0 <= j < 64 ==> bit_of(x & ((x - 1) as u64), j) == (bit_of(x, j) && j != u64_trailing_zeros(x)),
{
    axiom_u64_trailing_zeros(x);
    let t = u64_trailing_zeros(x) as u64;
    assert(x != 0 && t < 64 && (x >> t) & 1u64 == 1u64 && (x << ((64 - t) as u64)) == 0u64 ==> x & ((x - 1) as u64) == x & !(1u64 << t))
        by (bit_vector);
    assert forall|j: int| 0 <= j < 64 implies #[trigger] bit_of(x & ((x - 1) as u64), j) == (bit_of(x, j) && j != t) by {
        lemma_bit_and(x, !(1u64 << t), j);
        lemma_bit_not(1u64 << t, j);
        lemma_bit_single(t, j);
    }
}

pub proof fn lemma_count_bits_bound(x: u64, n: int)
    ensures
        count_bits(x, n) <= if n < 0 { 0 } else { n },
    decreases n,
{
    if n > 0 {
        lemma_count_bits_bound(x, n - 1);
    }
}

pub proof fn lemma_count_bits_zero(n: int)
    ensures
        count_bits(0u64, n) == 0,
    decreases n,
{
    if n > 0 {
        lemma_count_bits_zero(n - 1);
        lemma_bit_zero(n - 1);
    }
}

/// Number of squares among `0..n` that are set in `x` and belong to `s`.
pub open spec fn count_in(x: u64, s: Set<int>, n: int) -> nat
    decreases n,
{
    if n <= 0 {
        0
    } else {
        count_in(x, s, n - 1) + (if bit_of(x, n - 1) && s.contains(n - 1) { 1nat } else { 0nat })
    }
}

/// Counting the squares of `y & x` where `y` holds exactly the squares of `s`.
pub proof fn lemma_count_in(x: u64, y: u64, s: Set<int>, n: int)
    requires
        n <= 64,
        forall|t: int| 0 <= t < 64 ==> (#[trigger] bit_of(y, t) <==> s.contains(t)),
    ensures
        count_bits(y & x, n) == count_in(x, s, n),
    decreases n,
{
    if n > 0 {
        lemma_count_in(x, y, s, n - 1);
        lemma_bit_and(y, x, n - 1);
    }
}

pub broadcast group group_bits {
    lemma_bit_or,
    lemma_bit_and,
    lemma_bit_xor,
    lemma_bit_not,
    lemma_bit_single,
}

/// A set of squares stored in the bits of a `u64`: bit `i` stands for square `i`.
#[derive(Debug, Default, Hash, PartialEq, Eq, Structural, Clone, Copy)]
pub struct BitBoard(pub u64);

impl BitBoard {
    /// True when `sq` is in the board.
    pub open spec fn has(self, sq: int) -> bool {
        bit_of(self.0, sq)
    }

    /// Adds square `pos`.
    pub fn set(&mut self, pos: usize)
        requires
            pos < 64,
        ensures
            final(self).0 == old(self).0 | (1u64 << pos as u64),
            forall|i: int| 0 <= i < 64 ==> #[trigger] final(self).has(i) == (old(self).has(i) || i == pos),
    {
        self.0 = self.0 | (1u64 << pos as u64);
        proof {
            broadcast use group_bits;
        }
    }

    /// Removes square `index`.
    pub fn capture(&mut self, index: usize)
        requires
            index < 64,
        ensures
            final(self).0 == old(self).0 & !(1u64 << index as u64),
            forall|i: int| 0 <= i < 64 ==> #[trigger] final(self).has(i) == (old(self).has(i) && i != index),
    {
        self.0 = self.0 & !(1u64 << index as u64);
        proof {
            broadcast use group_bits;
        }
    }

    /// Number of squares in the board.
    pub fn pop_count(&self) -> (r: u32)
        ensures
            r as nat == count_bits(self.0, 64),
            r <= 64,
    {
        let mut n: u32 = 0;
        let mut i: u64 = 0;
        while i < 64
            invariant
                i <= 64,
                n as nat == count_bits(self.0, i as int),
                n <= i,
            decreases 64 - i,
        {
            proof {
                lemma_count_bits_bound(self.0, i as int);
            }
            if (self.0 >> i) & 1 == 1 {
                n = n + 1;
            }
            i = i + 1;
        }
        n
    }

    /// Eight lines, from the eighth rank down to the first, each listing the
    /// squares of that rank from file A to file H as `1` or `0`, separated by spaces.
    pub fn print_bitboard(&self) -> (out: String)
        ensures
            out@ == board_text(self.0, 8),
    {
        let mut out = String::new();
        let mut line: u64 = 0;
        while line < 8
            invariant
                line <= 8,
                out@ == board_text(self.0, line as int),
            decreases 8 - line,
        {
            let row = 7 - line;
            let mut file: u64 = 0;
            let ghost before = out@;
            while file < 8
                invariant
                    file <= 8,
                    row == 7 - line,
                    line < 8,
                    out@ == before + row_text(self.0, row as int, file as int),
                decreases 8 - file,
            {
                let sq = row * 8 + file;
                if (self.0 >> sq) & 1 == 1 {
                    out.append("1");
                } else {
                    out.append("0");
                }
                if file < 7 {
                    out.append(" ");
                } else {
                    out.append("\n");
                }
                proof {
                    reveal_strlit("1");
                    reveal_strlit("0");
                    reveal_strlit(" ");
                    reveal_strlit("\n");
                    assert(out@ =~= before + row_text(self.0, row as int, file as int + 1));
                }
                file = file + 1;
            }
            line = line + 1;
        }
        out
    }

    /// Lowest square of the board, if any.
    pub fn lsb(&self) -> (r: Option<u64>)
        ensures
            self.0 == 0 ==> r is None,
            self.0 != 0 ==> r == Some(u64_trailing_zeros(self.0) as u64) && is_lowest_bit(self.0, r->0 as int),
    {
        if self.0 == 0 {
            return None;
        }
        proof {
            lemma_lowest_bit(self.0);
        }
        Some(self.0.trailing_zeros() as u64)
    }

    /// Lowest square of the board, if any.
    pub fn const_lsb(&self) -> (r: Option<u64>)
        ensures
            self.0 == 0 ==> r is None,
            self.0 != 0 ==> r == Some(u64_trailing_zeros(self.0) as u64) && is_lowest_bit(self.0, r->0 as int),
    {
        if self.0 == 0 {
            return None;
        }
        proof {
            lemma_lowest_bit(self.0);
        }
        Some(self.0.trailing_zeros() as u64)
    }

    /// Removes the lowest square and returns it.
    pub fn pop_lsb(&mut self) -> (r: u64)
        requires
            old(self).0 != 0,
        ensures
            r == u64_trailing_zeros(old(self).0),
            is_lowest_bit(old(self).0, r as int),
            final(self).0 == old(self).0 & ((old(self).0 - 1) as u64),
            final(self).0 < old(self).0,
            forall|i: int| 0 <= i < 64 ==> #[trigger] bit_of(final(self).0, i) == (bit_of(old(self).0, i) && i != r),
    {
        proof {
            lemma_lowest_bit(self.0);
            lemma_clear_lowest(self.0);
            let x = self.0;
            assert(x != 0 ==> x & ((x - 1) as u64) < x) by (bit_vector);
        }
        let idx = self.0.trailing_zeros() as u64;
        self.0 = self.0 & (self.0 - 1);
        idx
    }

    /// Removes and returns the lowest square, or `None` for an empty board.
    pub fn try_pop_lsb(&mut self) -> (r: Option<u64>)
        ensures
            old(self).0 == 0 ==> r is None && final(self).0 == 0,
            old(self).0 != 0 ==> r == Some(u64_trailing_zeros(old(self).0) as u64)
                && is_lowest_bit(old(self).0, r->0 as int)
                && final(self).0 == old(self).0 & ((old(self).0 - 1) as u64),
            forall|i: int| 0 <= i < 64 ==> #[trigger] final(self).has(i) == (old(self).has(i) && (r matches Some(k) ==> i != k)),
    {
        if self.0 == 0 {
            return None;
        }
        Some(self.pop_lsb())
    }

    /// Highest square of the board, if any.
    pub fn msb(&self) -> (r: Option<u64>)
        ensures
            self.0 == 0 ==> r is None,
            self.0 != 0 ==> r == Some((63 - u64_leading_zeros(self.0)) as u64) && is_highest_bit(self.0, r->0 as int),
    {
        if self.0 == 0 {
            None
        } else {
            proof {
                lemma_highest_bit(self.0);
            }
            Some(63 - self.0.leading_zeros() as u64)
        }
    }

    /// Highest square of the board, if any.
    pub fn const_msb(&self) -> (r: Option<u64>)
        ensures
            self.0 == 0 ==> r is None,
            self.0 != 0 ==> r == Some((63 - u64_leading_zeros(self.0)) as u64) && is_highest_bit(self.0, r->0 as int),
    {
        if self.0 == 0 {
            return None;
        }
        proof {
            lemma_highest_bit(self.0);
        }
        Some(63 - self.0.leading_zeros() as u64)
    }

    /// Removes the highest square and returns it.
    pub fn pop_msb(&mut self) -> (r: Option<u64>)
        ensures
            old(self).0 == 0 ==> r is None && final(self).0 == 0,
            old(self).0 != 0 ==> r == Some((63 - u64_leading_zeros(old(self).0)) as u64)
                && is_highest_bit(old(self).0, r->0 as int)
                && final(self).0 == old(self).0 & !(1u64 << r->0),
            forall|i: int| 0 <= i < 64 ==> #[trigger] final(self).has(i) == (old(self).has(i) && (r matches Some(k) ==> i != k)),
    {
        if self.0 == 0 {
            return None;
        }
        proof {
            lemma_highest_bit(self.0);
        }
        let idx: u32 = 63 - self.0.leading_zeros();
        self.0 = self.0 & !(1u64 << idx);
        proof {
            broadcast use group_bits;
        }
        Some(idx as u64)
    }

    pub fn is_empty(&self) -> (r: bool)
        ensures
            r == (self.0 == 0),
    {
        self.0 == 0
    }

    pub fn any(&self) -> (r: bool)
        ensures
            r == (self.0 != 0),
    {
        self.0 != 0
    }

    /// An iterator over the squares of the board, lowest first.
    pub fn iter_bits(&self) -> (it: BitBoardIterator)
        ensures
            it.remaining == self.0,
    {
        BitBoardIterator { remaining: self.0 }
    }

    pub fn or(self, rhs: Self) -> (r: Self)
        ensures
            r.0 == self.0 | rhs.0,
    {
        BitBoard(self.0 | rhs.0)
    }

    pub fn and(self, rhs: Self) -> (r: Self)
        ensures
            r.0 == self.0 & rhs.0,
    {
        BitBoard(self.0 & rhs.0)
    }

    pub fn not(self) -> (r: Self)
        ensures
            r.0 == !self.0,
    {
        BitBoard(!self.0)
    }

    /// True when square `index` is in the board.
    pub fn contains_square(&self, index: usize) -> (r: bool)
        requires
            index < 64,
        ensures
            r == self.has(index as int),
    {
        let r = (self.0 & (1u64 << index as u64)) != 0;
        proof {
            lemma_contains(self.0, index as u64);
        }
        r
    }

    /// The lowest square when `forward`, else the highest one.
    pub fn get_closest_bit(&self, forward: bool) -> (r: Option<u64>)
        ensures
            self.0 == 0 ==> r is None,
            self.0 != 0 && forward ==> r == Some(u64_trailing_zeros(self.0) as u64) && is_lowest_bit(self.0, r->0 as int),
            self.0 != 0 && !forward ==> r == Some((63 - u64_leading_zeros(self.0)) as u64) && is_highest_bit(self.0, r->0 as int),
    {
        if self.is_empty() {
            None
        } else if forward {
            self.lsb()
        } else {
            self.msb()
        }
    }
}

proof fn lemma_contains(x: u64, j: u64)
    requires
        j < 64,
    ensures
        ((x & (1u64 << j)) != 0) == bit_of(x, j as int),
{
    assert(j < 64 ==> (((x & (1u64 << j)) != 0) == ((x >> j) & 1u64 == 1u64))) by (bit_vector);
}

/// The text of one rank of a board: squares `row*8 .. row*8 + n`, each `1` or `0`,
/// with a space after each but the last of the rank, which gets a line break.
pub open spec fn row_text(x: u64, row: int, n: int) -> Seq<char>
    decreases n,
{
    if n <= 0 {
        Seq::empty()
    } else {
        row_text(x, row, n - 1) + seq![if bit_of(x, row * 8 + n - 1) { '1' } else { '0' }]
            + seq![if n - 1 < 7 { ' ' } else { '\n' }]
    }
}

/// The text of the first `lines` ranks printed, from the eighth rank down.
pub open spec fn board_text(x: u64, lines: int) -> Seq<char>
    decreases lines,
{
    if lines <= 0 {
        Seq::empty()
    } else {
        board_text(x, lines - 1) + row_text(x, 7 - (lines - 1), 8)
    }
}

/// Yields the squares of a board, lowest first.
pub struct BitBoardIterator {
    pub remaining: u64,
}

impl BitBoardIterator {
    /// The next square, removing it from what remains.
    pub fn next(&mut self) -> (r: Option<usize>)
        ensures
            old(self).remaining == 0 ==> r is None && final(self).remaining == 0,
            old(self).remaining != 0 ==> r == Some(u64_trailing_zeros(old(self).remaining) as usize)
                && is_lowest_bit(old(self).remaining, r->0 as int)
                && final(self).remaining == old(self).remaining & ((old(self).remaining - 1) as u64),
    {
        if self.remaining == 0 {
            return None;
        }
        proof {
            lemma_lowest_bit(self.remaining);
        }
        let idx = self.remaining.trailing_zeros() as usize;
        self.remaining = self.remaining & (self.remaining - 1);
        Some(idx)
    }

    /// Squares still to come.
    pub fn len(&self) -> (r: usize)
        ensures
            r as nat == count_bits(self.remaining, 64),
    {
        let b = BitBoard(self.remaining);
        b.pop_count() as usize
    }

    /// Squares still to come, as lower and upper bound.
    pub fn size_hint(&self) -> (r: (usize, Option<usize>))
        ensures
            r.0 as nat == count_bits(self.remaining, 64),
            r.1 == Some(r.0),
    {
        let n = self.len();
        (n, Some(n))
    }

    /// Number of squares still to come.
    pub fn count(self) -> (r: usize)
        ensures
            r as nat == count_bits(self.remaining, 64),
    {
        self.len()
    }
}

} // verus!
