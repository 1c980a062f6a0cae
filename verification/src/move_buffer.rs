use vstd::prelude::*;
use crate::move_info::Move;

verus! {

/// Most moves a buffer holds.
pub const MAX_MOVES: usize = 256;

/// A list of up to 256 moves.
#[derive(Clone, Debug)]
pub struct MoveBuffer {
    moves: Vec<Move>,
}

impl View for MoveBuffer {
    type V = Seq<Move>;

    closed spec fn view(&self) -> Seq<Move> {
        self.moves@
    }
}

impl MoveBuffer {
    /// The buffer holds at most 256 moves.
    pub closed spec fn wf(&self) -> bool {
        self.moves@.len() <= MAX_MOVES
    }

    /// A well-formed buffer holds at most 256 moves.
    pub proof fn lemma_wf_len(&self)
        requires
            self.wf(),
        ensures
            self@.len() <= MAX_MOVES,
    {
    }

    /// An empty buffer.
    pub fn new() -> (r: Self)
        ensures
            r@ == Seq::<Move>::empty(),
            r.wf(),
    {
        Self { moves: Vec::new() }
    }

    /// Adds a move at the end.
    pub fn push(&mut self, m: Move)
        requires
            old(self).wf(),
            old(self)@.len() < MAX_MOVES,
        ensures
            final(self)@ == old(self)@.push(m),
            final(self).wf(),
    {
        self.moves.push(m);
    }

    /// Whether `m` is in the buffer.
    pub fn contains(&self, m: &Move) -> (r: bool)
        ensures
            r == self@.contains(*m),
    {
        let mut i: usize = 0;
        while i < self.moves.len()
            invariant
                i <= self.moves@.len(),
                forall|j: int| 0 <= j < i ==> self.moves@[j] != *m,
            decreases self.moves@.len() - i,
        {
            if self.moves[i] == *m {
                proof {
                    assert(self@[i as int] == *m);
                }
                return true;
            }
            i = i + 1;
        }
        false
    }

    pub fn is_empty(&self) -> (r: bool)
        ensures
            r == (self@.len() == 0),
    {
        self.moves.len() == 0
    }

    pub fn len(&self) -> (r: usize)
        ensures
            r == self@.len(),
    {
        self.moves.len()
    }

    /// Removes every move.
    pub fn clear(&mut self)
        ensures
            final(self)@ == Seq::<Move>::empty(),
            final(self).wf(),
    {
        self.moves.clear();
    }

    /// The moves as a slice.
    pub fn as_slice(&self) -> (r: &[Move])
        ensures
            r@ == self@,
    {
        self.moves.as_slice()
    }

    /// The first move, if any.
    pub fn first(&self) -> (r: Option<Move>)
        ensures
            self@.len() == 0 ==> r is None,
            self@.len() > 0 ==> r == Some(self@[0]),
    {
        if self.moves.len() == 0 {
            None
        } else {
            Some(self.moves[0])
        }
    }

    /// The last move, if any.
    pub fn last(&self) -> (r: Option<Move>)
        ensures
            self@.len() == 0 ==> r is None,
            self@.len() > 0 ==> r == Some(self@.last()),
    {
        let n = self.moves.len();
        if n == 0 {
            None
        } else {
            Some(self.moves[n - 1])
        }
    }

    /// The move at position `index`, if there is one.
    pub fn get(&self, index: usize) -> (r: Option<Move>)
        ensures
            index < self@.len() ==> r == Some(self@[index as int]),
            index >= self@.len() ==> r is None,
    {
        if index < self.moves.len() {
            Some(self.moves[index])
        } else {
            None
        }
    }

    /// Replaces the move at position `index`.
    pub fn set(&mut self, index: usize, m: Move)
        requires
            index < old(self)@.len(),
        ensures
            final(self)@ == old(self)@.update(index as int, m),
            old(self).wf() ==> final(self).wf(),
    {
        self.moves.set(index, m);
    }

    /// Swaps the moves at two positions.
    pub fn swap(&mut self, a: usize, b: usize)
        requires
            a < old(self)@.len(),
            b < old(self)@.len(),
        ensures
            final(self)@ == old(self)@.update(a as int, old(self)@[b as int]).update(b as int, old(self)@[a as int]),
            old(self).wf() ==> final(self).wf(),
    {
        let ma = self.moves[a];
        let mb = self.moves[b];
        self.moves.set(a, mb);
        self.moves.set(b, ma);
    }

    /// The moves as a slice that can be changed in place; what is written through it becomes
    /// the buffer's moves.
    pub fn as_mut_slice(&mut self) -> (r: &mut [Move])
        ensures
            r@ == old(self)@,
            final(self)@ == final(r)@,
    {
        self.moves.as_mut_slice()
    }

    /// Keeps the moves for which `pred` answers true, in their order; `pred` is asked once
    /// per move, front to back.
    pub fn retain<F: Fn(&Move) -> bool>(&mut self, pred: F)
        requires
            forall|i: int| 0 <= i < old(self)@.len() ==> call_requires(pred, (&old(self)@[i],)),
        ensures
            exists|keep: Seq<bool>| {
                &&& keep.len() == old(self)@.len()
                &&& forall|i: int| 0 <= i < keep.len() ==> call_ensures(pred, (&old(self)@[i],), #[trigger] keep[i])
                &&& final(self)@ == kept(old(self)@, keep, old(self)@.len() as int)
            },
            old(self).wf() ==> final(self).wf(),
    {
        let mut keep: Vec<bool> = Vec::new();
        let mut i: usize = 0;
        while i < self.moves.len()
            invariant
                i <= self.moves@.len(),
                self.moves@ == old(self)@,
                keep@.len() == i,
                forall|j: int| 0 <= j < old(self)@.len() ==> call_requires(pred, (&old(self)@[j],)),
                forall|j: int| 0 <= j < i ==> call_ensures(pred, (&old(self)@[j],), #[trigger] keep@[j]),
            decreases self.moves@.len() - i,
        {
            let b = pred(&self.moves[i]);
            keep.push(b);
            i = i + 1;
        }
        self.retain_by(&keep);
    }

    /// Keeps the moves for which `keep` holds, in their order.
    pub fn retain_by(&mut self, keep: &Vec<bool>)
        requires
            keep@.len() == old(self)@.len(),
        ensures
            final(self)@ == kept(old(self)@, keep@, old(self)@.len() as int),
            old(self).wf() ==> final(self).wf(),
    {
        let ghost orig = self.moves@;
        let mut out: Vec<Move> = Vec::new();
        let mut i: usize = 0;
        while i < self.moves.len()
            invariant
                i <= self.moves@.len(),
                self.moves@ == orig,
                keep@.len() == orig.len(),
                out@ == kept(orig, keep@, i as int),
                out@.len() <= i,
            decreases self.moves@.len() - i,
        {
            if keep[i] {
                out.push(self.moves[i]);
            }
            i = i + 1;
        }
        self.moves = out;
    }

    /// Turns the buffer into an iterator that yields the moves by value.
    pub fn into_iter(self) -> (r: MoveBufferIntoIter)
        ensures
            r.buf@ == self@,
            r.pos == 0,
    {
        MoveBufferIntoIter { buf: self, pos: 0 }
    }
}

/// The moves of `s` among the first `n` for which `keep` holds, in order.
pub open spec fn kept(s: Seq<Move>, keep: Seq<bool>, n: int) -> Seq<Move>
    decreases n,
{
    if n <= 0 {
        Seq::empty()
    } else if keep[n - 1] {
        kept(s, keep, n - 1).push(s[n - 1])
    } else {
        kept(s, keep, n - 1)
    }
}

/// Yields the moves of a buffer by value.
pub struct MoveBufferIntoIter {
    pub buf: MoveBuffer,
    pub pos: usize,
}

impl MoveBufferIntoIter {
    /// The next move, if any remain.
    pub fn next(&mut self) -> (r: Option<Move>)
        ensures
            old(self).pos < old(self).buf@.len() ==> r == Some(old(self).buf@[old(self).pos as int])
                && final(self).pos == old(self).pos + 1,
            old(self).pos >= old(self).buf@.len() ==> r is None && final(self).pos == old(self).pos,
            final(self).buf@ == old(self).buf@,
    {
        if self.pos < self.buf.len() {
            let item = self.buf.moves[self.pos];
            self.pos = self.pos + 1;
            Some(item)
        } else {
            None
        }
    }

    /// Moves still to come, as lower and upper bound.
    pub fn size_hint(&self) -> (r: (usize, Option<usize>))
        requires
            self.pos <= self.buf@.len(),
        ensures
            r.0 == self.buf@.len() - self.pos,
            r.1 == Some(r.0),
    {
        let remaining = self.buf.len() - self.pos;
        (remaining, Some(remaining))
    }
}

} // verus!
