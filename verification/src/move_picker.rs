use vstd::prelude::*;
use crate::board::Board;
use crate::move_info::Move;
use crate::move_ordering::{MoveScoringPolicy, MainSearchPolicy, QSearchPolicy, main_score, qsearch_score};

verus! {

broadcast use vstd::seq_lib::group_to_multiset_ensures;

/// `s` with the entries at `i` and `j` exchanged.
pub open spec fn swapped<A>(s: Seq<A>, i: int, j: int) -> Seq<A> {
    s.update(i, s[j]).update(j, s[i])
}

/// Exchanging two entries keeps the multiset of a sequence.
pub proof fn lemma_swap_multiset<A>(s: Seq<A>, i: int, j: int)
    requires
        0 <= i < s.len(),
        0 <= j < s.len(),
    ensures
        swapped(s, i, j).to_multiset() == s.to_multiset(),
{
    broadcast use vstd::multiset::group_multiset_properties;
    let t = s.update(i, s[j]);
    assert(t.to_multiset() == s.to_multiset().insert(s[j]).remove(s[i]));
    assert(t[j] == (if i == j { s[j] } else { s[j] }));
    assert(swapped(s, i, j).to_multiset() == t.to_multiset().insert(s[i]).remove(t[j]));
    assert(swapped(s, i, j).to_multiset() =~= s.to_multiset());
}

/// Hands out moves best first, scoring them once.
pub struct MovePicker {
    moves: Vec<Move>,
    scores: Vec<i32>,
    current: usize,
}

impl MovePicker {
    /// The moves in their current order.
    pub closed spec fn moves(&self) -> Seq<Move> {
        self.moves@
    }

    /// The scores, in the order of the moves.
    pub closed spec fn scores(&self) -> Seq<i32> {
        self.scores@
    }

    /// How many moves have been handed out.
    pub closed spec fn current(&self) -> int {
        self.current as int
    }

    /// One score per move, at most 256 moves, no more handed out than there are.
    pub closed spec fn wf(&self) -> bool {
        &&& self.moves@.len() == self.scores@.len()
        &&& self.moves@.len() <= 256
        &&& self.current <= self.moves@.len()
    }

    /// Scores each move of `moves` for the main search.
    pub fn new(
        board: &Board,
        moves: &[Move],
        killers: &[Option<Move>; 2],
        tt_move: Option<Move>,
        history: &[[i32; 64]; 64],
    ) -> (r: Self)
        requires
            board.positions.wf(),
            moves@.len() <= 256,
        ensures
            r.wf(),
            r.moves() == moves@,
            r.current() == 0,
            forall|i: int| 0 <= i < moves@.len() ==> #[trigger] r.scores()[i] == main_score(*board, moves@[i], *killers, tt_move, *history),
    {
        let mut ms: Vec<Move> = Vec::new();
        let mut scores: Vec<i32> = Vec::new();
        let mut i: usize = 0;
        while i < moves.len()
            invariant
                board.positions.wf(),
                i <= moves@.len(),
                ms@ == moves@.subrange(0, i as int),
                scores@.len() == i,
                forall|j: int| 0 <= j < i ==> #[trigger] scores@[j] == main_score(*board, moves@[j], *killers, tt_move, *history),
            decreases moves@.len() - i,
        {
            let m = moves[i];
            ms.push(m);
            scores.push(MainSearchPolicy::score(board, m, killers, tt_move, history));
            assert(ms@ =~= moves@.subrange(0, i as int + 1));
            i = i + 1;
        }
        assert(ms@ =~= moves@);
        MovePicker { moves: ms, scores, current: 0 }
    }

    /// Scores each move of `moves` for quiescence.
    pub fn new_qsearch(board: &Board, moves: &[Move]) -> (r: Self)
        requires
            board.positions.wf(),
            moves@.len() <= 256,
        ensures
            r.wf(),
            r.moves() == moves@,
            r.current() == 0,
            forall|i: int| 0 <= i < moves@.len() ==> #[trigger] r.scores()[i] == qsearch_score(*board, moves@[i]),
    {
        let mut ms: Vec<Move> = Vec::new();
        let mut scores: Vec<i32> = Vec::new();
        let none: [Option<Move>; 2] = [None, None];
        let history = [[0i32; 64]; 64];
        let mut i: usize = 0;
        while i < moves.len()
            invariant
                board.positions.wf(),
                i <= moves@.len(),
                ms@ == moves@.subrange(0, i as int),
                scores@.len() == i,
                forall|j: int| 0 <= j < i ==> #[trigger] scores@[j] == qsearch_score(*board, moves@[j]),
            decreases moves@.len() - i,
        {
            let m = moves[i];
            ms.push(m);
            scores.push(QSearchPolicy::score(board, m, &none, None, &history));
            assert(ms@ =~= moves@.subrange(0, i as int + 1));
            i = i + 1;
        }
        assert(ms@ =~= moves@);
        MovePicker { moves: ms, scores, current: 0 }
    }

    /// The next move not yet handed out with the highest score (the first such one), moved
    /// to the front of those left; `None` once all are out.
    pub fn next_best(&mut self) -> (r: Option<Move>)
        requires
            old(self).wf(),
        ensures
            final(self).wf(),
            old(self).current() >= old(self).moves().len() ==> r is None && *final(self) == *old(self),
            old(self).current() < old(self).moves().len() ==> {
                let c = old(self).current();
                let b = choose_best(old(self).scores(), c);
                &&& c <= b < old(self).moves().len()
                &&& r == Some(old(self).moves()[b])
                &&& final(self).moves() == swapped(old(self).moves(), c, b)
                &&& final(self).scores() == swapped(old(self).scores(), c, b)
                &&& final(self).current() == c + 1
                &&& forall|j: int| c <= j < old(self).moves().len() ==> old(self).scores()[j] <= old(self).scores()[b]
            },
            final(self).moves().to_multiset() == old(self).moves().to_multiset(),
            final(self).moves().len() == old(self).moves().len(),
            r is Some ==> final(self).current() == old(self).current() + 1,
    {
        if self.current >= self.moves.len() {
            return None;
        }
        let c = self.current;
        let mut best_idx = c;
        let mut best_score = self.scores[c];
        let mut i = c + 1;
        while i < self.moves.len()
            invariant
                self.wf(),
                *self == *old(self),
                c == self.current,
                c < self.moves@.len(),
                c < i <= self.moves@.len(),
                c <= best_idx < i,
                best_score == self.scores@[best_idx as int],
                best_idx == first_max(self.scores@, c as int, i as int),
                forall|j: int| c <= j < i ==> self.scores@[j] <= best_score,
            decreases self.moves@.len() - i,
        {
            if self.scores[i] > best_score {
                best_score = self.scores[i];
                best_idx = i;
            }
            i = i + 1;
        }
        proof {
            lemma_swap_multiset(self.moves@, c as int, best_idx as int);
        }
        let mc = self.moves[c];
        let mb = self.moves[best_idx];
        self.moves.set(c, mb);
        self.moves.set(best_idx, mc);
        let sc = self.scores[c];
        let sb = self.scores[best_idx];
        self.scores.set(c, sb);
        self.scores.set(best_idx, sc);
        self.current = c + 1;
        Some(mb)
    }

    /// Number of moves not yet handed out.
    pub fn remaining(&self) -> (r: usize)
        requires
            self.wf(),
        ensures
            r == self.moves().len() - self.current(),
    {
        self.moves.len() - self.current
    }

    /// The highest score among the moves not yet handed out, `None` once all are out.
    pub fn peek_best_score(&self) -> (r: Option<i32>)
        requires
            self.wf(),
        ensures
            self.current() >= self.moves().len() ==> r is None,
            self.current() < self.moves().len() ==> r == Some(self.scores()[choose_best(self.scores(), self.current())]),
    {
        if self.current >= self.scores.len() {
            return None;
        }
        let c = self.current;
        let mut best_idx = c;
        let mut best_score = self.scores[c];
        let mut i = c + 1;
        while i < self.moves.len()
            invariant
                self.wf(),
                c == self.current,
                c < self.moves@.len(),
                c < i <= self.moves@.len(),
                c <= best_idx < i,
                best_score == self.scores@[best_idx as int],
                best_idx == first_max(self.scores@, c as int, i as int),
            decreases self.moves@.len() - i,
        {
            if self.scores[i] > best_score {
                best_score = self.scores[i];
                best_idx = i;
            }
            i = i + 1;
        }
        Some(best_score)
    }

    /// Starts handing out again from the first move, keeping the order and the scores.
    pub fn reset(&mut self)
        requires
            old(self).wf(),
        ensures
            final(self).wf(),
            final(self).moves() == old(self).moves(),
            final(self).scores() == old(self).scores(),
            final(self).current() == 0,
    {
        self.current = 0;
    }
}

/// Index of the first highest score of `s` in `c..i`.
pub open spec fn first_max(s: Seq<i32>, c: int, i: int) -> int
    decreases i - c,
{
    if i <= c + 1 {
        c
    } else {
        let b = first_max(s, c, i - 1);
        if s[i - 1] > s[b] {
            i - 1
        } else {
            b
        }
    }
}

/// Index of the first highest score of `s` from `c` on.
pub open spec fn choose_best(s: Seq<i32>, c: int) -> int {
    first_max(s, c, s.len() as int)
}

} // verus!
