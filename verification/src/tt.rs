use vstd::prelude::*;
use crate::move_info::Move;
use crate::search::MAX_HASH;

verus! {

/// Entries in a cluster.
pub const NUM_ENTRIES_PER_CLUSTER: usize = 4;

/// Bytes an entry takes: key 4, move 2, score 2, depth 1, flags 1.
pub const ENTRY_SIZE: usize = 10;

/// What a stored score says of the true one.
#[derive(Clone, Copy, Debug, PartialEq, Eq, Structural)]
pub enum ScoreTypes {
    /// The score is exact.
    Exact,
    /// The true score is at least this.
    LowerBound,
    /// The true score is at most this.
    UpperBound,
}

/// The number a score type is stored as.
pub open spec fn type_code(t: ScoreTypes) -> u8 {
    match t {
        ScoreTypes::Exact => 0,
        ScoreTypes::LowerBound => 1,
        ScoreTypes::UpperBound => 2,
    }
}

/// The score type stored as `code`: 0 exact, 1 lower bound, any other upper bound.
pub open spec fn type_of_code(code: u8) -> ScoreTypes {
    if code == 0 {
        ScoreTypes::Exact
    } else if code == 1 {
        ScoreTypes::LowerBound
    } else {
        ScoreTypes::UpperBound
    }
}

/// One stored search result: the lower 32 bits of the position's hash, the best move, the
/// score, the depth, and flags holding the score type in the two low bits and the age above.
#[derive(Clone, Copy, Debug, PartialEq, Eq, Structural)]
pub struct TranspositionEntry {
    pub key: u32,
    pub best_move: Move,
    pub score: i16,
    pub depth: u8,
    pub flags: u8,
}

impl TranspositionEntry {
    /// The empty entry: every field zero.
    pub open spec fn empty() -> Self {
        TranspositionEntry { key: 0, best_move: Move(0), score: 0, depth: 0, flags: 0 }
    }

    /// The age stored in the flags.
    pub open spec fn age(self) -> u8 {
        self.flags >> 2u8
    }

    /// Packs a result: the lower 32 bits of `hash`, the score cut to 16 bits, and the flags
    /// `age << 2 | score_type`, cut to 8 bits.
    pub fn new(hash: u64, best_move: Move, score: i32, depth: u8, score_type: ScoreTypes, age: u8) -> (r: Self)
        ensures
            r.key == hash as u32,
            r.best_move == best_move,
            r.score == score as i16,
            r.depth == depth,
            r.flags == ((age << 2u8) | type_code(score_type)),
    {
        let code: u8 = match score_type {
            ScoreTypes::Exact => 0,
            ScoreTypes::LowerBound => 1,
            ScoreTypes::UpperBound => 2,
        };
        TranspositionEntry { key: hash as u32, best_move, score: score as i16, depth, flags: (age << 2u8) | code }
    }

    /// Whether the key is the lower 32 bits of `hash`.
    pub fn matches(&self, hash: u64) -> (r: bool)
        ensures
            r == (self.key == hash as u32),
    {
        self.key == hash as u32
    }

    /// The score type held in the two low bits of the flags.
    pub fn get_score_type(&self) -> (r: ScoreTypes)
        ensures
            r == type_of_code(self.flags & 3u8),
    {
        let code = self.flags & 3u8;
        if code == 0 {
            ScoreTypes::Exact
        } else if code == 1 {
            ScoreTypes::LowerBound
        } else {
            ScoreTypes::UpperBound
        }
    }

    /// The stored score.
    pub fn get_score(&self) -> (r: i32)
        ensures
            r == self.score,
    {
        self.score as i32
    }

    /// The age held above the score type in the flags.
    pub fn get_age(&self) -> (r: u8)
        ensures
            r == self.age(),
    {
        self.flags >> 2u8
    }

    /// The stored best move.
    pub fn get_best_move(&self) -> (r: Move)
        ensures
            r == self.best_move,
    {
        self.best_move
    }

    /// The stored depth.
    pub fn get_depth(&self) -> (r: u8)
        ensures
            r == self.depth,
    {
        self.depth
    }
}

/// A packed entry keeps the type it was given.
pub proof fn lemma_type_round_trip(age: u8, t: ScoreTypes)
    ensures
        type_of_code(((age << 2u8) | type_code(t)) & 3u8) == t,
{
    let c = type_code(t);
    assert(c < 4 ==> ((age << 2u8) | c) & 3u8 == c) by (bit_vector);
}

impl Default for TranspositionEntry {
    /// The empty entry.
    fn default() -> (r: Self)
        ensures
            r == TranspositionEntry::empty(),
    {
        TranspositionEntry { key: 0, best_move: Move(0), score: 0, depth: 0, flags: 0 }
    }
}

/// Four entries that share a table index.
#[derive(Clone, Copy, Debug)]
pub struct Cluster {
    pub entries: [TranspositionEntry; 4],
}

impl Cluster {
    /// Every entry is empty.
    pub open spec fn is_empty(self) -> bool {
        forall|j: int| 0 <= j < 4 ==> #[trigger] self.entries[j] == TranspositionEntry::empty()
    }
}

/// Index of the first of the entries `es` whose key is `key`, if any.
pub open spec fn find(es: Seq<TranspositionEntry>, key: u32) -> Option<int> {
    if es[0].key == key {
        Some(0)
    } else if es[1].key == key {
        Some(1)
    } else if es[2].key == key {
        Some(2)
    } else if es[3].key == key {
        Some(3)
    } else {
        None
    }
}

impl Default for Cluster {
    /// A cluster of empty entries.
    fn default() -> (r: Self)
        ensures
            r.is_empty(),
    {
        let e = TranspositionEntry { key: 0, best_move: Move(0), score: 0, depth: 0, flags: 0 };
        Cluster { entries: [e, e, e, e] }
    }
}

/// How unattractive `old` is to keep when `new` arrives: its depth less four times the age
/// difference, ages wrapping.
pub open spec fn keep_score(new: TranspositionEntry, old: TranspositionEntry) -> int {
    old.depth - new.age().wrapping_sub(old.age()) * 4
}

/// The entry of `es` that `new` replaces when no entry shares its key: the first one with
/// the lowest keep score.
pub open spec fn victim(es: Seq<TranspositionEntry>, new: TranspositionEntry) -> int {
    let s0 = keep_score(new, es[0]);
    let s1 = keep_score(new, es[1]);
    let s2 = keep_score(new, es[2]);
    let s3 = keep_score(new, es[3]);
    let (i01, m01) = if s1 < s0 { (1int, s1) } else { (0int, s0) };
    let (i012, m012) = if s2 < m01 { (2int, s2) } else { (i01, m01) };
    if s3 < m012 { 3 } else { i012 }
}

/// The entries `es` after storing `new`: where an entry shares its key, the first such one
/// is replaced when `new` is at least as deep and kept otherwise; else the victim is
/// replaced.
pub open spec fn stored(es: Seq<TranspositionEntry>, new: TranspositionEntry) -> Seq<TranspositionEntry> {
    match find(es, new.key) {
        Some(j) => if new.depth >= es[j].depth {
            es.update(j, new)
        } else {
            es
        },
        None => es.update(victim(es, new), new),
    }
}

/// `x` is a power of two.
pub open spec fn is_pow2(x: int) -> bool
    decreases x,
{
    if x <= 1 {
        x == 1
    } else {
        x % 2 == 0 && is_pow2(x / 2)
    }
}

/// The table: clusters indexed by the hash masked to their number, a power of two.
#[derive(Debug)]
pub struct TranspositionTable {
    clusters: Vec<Cluster>,
    size: usize,
}

/// An error when resizing the table.
#[derive(Clone, Copy, Debug, PartialEq, Eq, Structural)]
pub enum TtError {
    /// The requested size in megabytes exceeds the largest allowed.
    TooLarge,
}

/// The smallest power of two at least `n`.
fn next_power_of_two(n: usize) -> (r: usize)
    requires
        n <= 0x8000_0000,
    ensures
        r >= n,
        r >= 1,
        is_pow2(r as int),
        r == 1 || r / 2 < n,
        r <= 0x1_0000_0000,
{
    let mut p: usize = 1;
    while p < n
        invariant
            1 <= p,
            is_pow2(p as int),
            p == 1 || p / 2 < n,
            n <= 0x8000_0000,
            p <= 0x1_0000_0000,
        decreases 0x1_0000_0000 - p,
    {
        assert(is_pow2((p * 2) as int)) by {
            assert((p * 2) as int / 2 == p);
        }
        p = p * 2;
    }
    p
}

/// Number of clusters of a table of `size_mb` megabytes: its entries, four to a cluster,
/// rounded up to a power of two.
fn clusters_for(size_mb: usize) -> (r: usize)
    requires
        size_mb <= MAX_HASH,
    ensures
        r >= size_mb * 1048576 / (ENTRY_SIZE as int) / (NUM_ENTRIES_PER_CLUSTER as int),
        r == 1 || r / 2 < size_mb * 1048576 / (ENTRY_SIZE as int) / (NUM_ENTRIES_PER_CLUSTER as int),
        r >= 1,
        r <= 0x0400_0000,
        is_pow2(r as int),
{
    let num_entries = (size_mb * 1024 * 1024) / ENTRY_SIZE;
    next_power_of_two(num_entries / NUM_ENTRIES_PER_CLUSTER)
}

/// Per mille of the first thousand clusters of `s` (or all, when fewer) with an entry in use.
pub open spec fn hash_fill(s: Seq<Cluster>) -> int {
    used_in(s, if s.len() < 1000 { s.len() as int } else { 1000 }) * 1000 / (if s.len() < 1000 {
        s.len() as int
    } else {
        1000
    })
}

impl View for TranspositionTable {
    type V = Seq<Cluster>;

    closed spec fn view(&self) -> Seq<Cluster> {
        self.clusters@
    }
}

impl TranspositionTable {
    /// The table has a power of two of clusters, at most 2^26.
    pub closed spec fn wf(&self) -> bool {
        &&& self.clusters@.len() == self.size
        &&& 1 <= self.size <= 0x0400_0000
        &&& is_pow2(self.size as int)
    }

    /// The index of the cluster of `hash`: its lower bits, as many as the table needs.
    pub open spec fn slot(&self, hash: u64) -> int {
        slot_in(self@.len() as int, hash)
    }

    /// A table of `size_mb` megabytes of empty clusters.
    pub fn new(size_mb: usize) -> (r: Self)
        requires
            size_mb <= MAX_HASH,
        ensures
            r.wf(),
            forall|i: int| 0 <= i < r@.len() ==> #[trigger] r@[i].is_empty(),
    {
        let n = clusters_for(size_mb);
        let clusters = vec![Cluster::default(); n];
        TranspositionTable { clusters, size: n }
    }

    /// Resizes the table to `new_size_mb` megabytes, keeping the clusters that still fit and
    /// adding empty ones; refuses a size over the largest allowed.
    pub fn change_size(&mut self, new_size_mb: usize) -> (r: Result<(), TtError>)
        requires
            old(self).wf(),
        ensures
            final(self).wf(),
            r is Err <==> new_size_mb > MAX_HASH,
            r is Err ==> final(self)@ == old(self)@,
            r is Ok ==> forall|i: int|
                0 <= i < final(self)@.len() ==> (if i < old(self)@.len() {
                    #[trigger] final(self)@[i] == old(self)@[i]
                } else {
                    final(self)@[i].is_empty()
                }),
    {
        if new_size_mb > MAX_HASH {
            return Err(TtError::TooLarge);
        }
        let n = clusters_for(new_size_mb);
        self.clusters.resize(n, Cluster::default());
        self.size = n;
        Ok(())
    }

    /// The index of the cluster of `hash`.
    fn index(&self, hash: u64) -> (r: usize)
        requires
            self.wf(),
        ensures
            r == self.slot(hash),
            r < self@.len(),
    {
        let m = (self.size - 1) as u64;
        proof {
            assert(hash & m <= m) by (bit_vector);
        }
        (hash & m) as usize
    }

    /// The first entry of the cluster of `hash` whose key is the lower 32 bits of `hash`.
    pub fn probe(&self, hash: u64) -> (r: Option<TranspositionEntry>)
        requires
            self.wf(),
        ensures
            r == (match find(self@[self.slot(hash)].entries@, hash as u32) {
                Some(j) => Some(self@[self.slot(hash)].entries[j]),
                None => None,
            }),
    {
        let index = self.index(hash);
        let cluster = &self.clusters[index];
        let mut i: usize = 0;
        while i < NUM_ENTRIES_PER_CLUSTER
            invariant
                i <= 4,
                self.wf(),
                index == self.slot(hash),
                *cluster == self@[index as int],
                forall|j: int| 0 <= j < i ==> cluster.entries[j].key != hash as u32,
            decreases 4 - i,
        {
            if cluster.entries[i].matches(hash) {
                return Some(cluster.entries[i]);
            }
            i = i + 1;
        }
        None
    }

    /// Stores `new_entry` in the cluster of its key: over the first entry with the same key
    /// when it is at least as deep, or not at all when shallower; else over the entry with
    /// the lowest depth less four times its age difference.
    pub fn store(&mut self, new_entry: TranspositionEntry)
        requires
            old(self).wf(),
        ensures
            final(self).wf(),
            final(self)@.len() == old(self)@.len(),
            forall|i: int|
                0 <= i < old(self)@.len() && i != old(self).slot(new_entry.key as u64) ==> #[trigger] final(self)@[i]
                    == old(self)@[i],
            final(self)@[old(self).slot(new_entry.key as u64)].entries@ == stored(
                old(self)@[old(self).slot(new_entry.key as u64)].entries@,
                new_entry,
            ),
    {
        let index = self.index(new_entry.key as u64);
        let mut cluster = self.clusters[index];
        let ghost c0 = cluster;
        let mut i: usize = 0;
        while i < NUM_ENTRIES_PER_CLUSTER
            invariant
                i <= 4,
                cluster == c0,
                self.wf(),
                self@ == old(self)@,
                index == old(self).slot(new_entry.key as u64),
                index < self@.len(),
                c0 == old(self)@[index as int],
                forall|j: int| 0 <= j < i ==> c0.entries[j].key != new_entry.key,
            decreases 4 - i,
        {
            if cluster.entries[i].key == new_entry.key {
                if new_entry.depth >= cluster.entries[i].depth {
                    cluster.entries[i] = new_entry;
                    self.clusters.set(index, cluster);
                }
                return;
            }
            i = i + 1;
        }
        let mut replace_idx: usize = 0;
        let mut worst_score: i32 = i32::MAX;
        let new_age = new_entry.get_age();
        let mut k: usize = 0;
        while k < NUM_ENTRIES_PER_CLUSTER
            invariant
                k <= 4,
                cluster == c0,
                self.wf(),
                self@ == old(self)@,
                index == old(self).slot(new_entry.key as u64),
                index < self@.len(),
                c0 == old(self)@[index as int],
                forall|j: int| 0 <= j < 4 ==> c0.entries[j].key != new_entry.key,
                new_age == new_entry.age(),
                replace_idx < 4,
                k == 0 ==> worst_score == i32::MAX && replace_idx == 0,
                k >= 1 ==> worst_score == keep_score(new_entry, c0.entries[replace_idx as int]),
                k >= 1 ==> replace_idx < k,
                forall|j: int| 0 <= j < k ==> keep_score(new_entry, c0.entries[j]) >= worst_score,
                forall|j: int| 0 <= j < replace_idx ==> keep_score(new_entry, c0.entries[j]) > worst_score,
            decreases 4 - k,
        {
            let entry = cluster.entries[k];
            let age_difference = new_age.wrapping_sub(entry.get_age());
            let score = (entry.depth as i32) - (age_difference as i32) * 4;
            assert(score == keep_score(new_entry, c0.entries[k as int]));
            if score < worst_score {
                worst_score = score;
                replace_idx = k;
            }
            k = k + 1;
        }
        proof {
            assert(replace_idx == victim(c0.entries@, new_entry));
        }
        cluster.entries[replace_idx] = new_entry;
        self.clusters.set(index, cluster);
    }

    /// Empties every cluster.
    pub fn clear(&mut self)
        requires
            old(self).wf(),
        ensures
            final(self).wf(),
            final(self)@.len() == old(self)@.len(),
            forall|i: int| 0 <= i < final(self)@.len() ==> #[trigger] final(self)@[i].is_empty(),
    {
        let mut i: usize = 0;
        while i < self.clusters.len()
            invariant
                self.wf(),
                self@.len() == old(self)@.len(),
                i <= self@.len(),
                forall|j: int| 0 <= j < i ==> #[trigger] self@[j].is_empty(),
            decreases self@.len() - i,
        {
            self.clusters.set(i, Cluster::default());
            i = i + 1;
        }
    }

    /// Per mille of the first thousand clusters (or all, when fewer) with an entry in use,
    /// an entry being in use when its key is not zero.
    pub fn hash_full(&self) -> (r: u16)
        requires
            self.wf(),
        ensures
            r <= 1000,
            r as int == hash_fill(self@),
    {
        let sample_size: usize = if self.size < 1000 { self.size } else { 1000 };
        let mut filled: usize = 0;
        let mut i: usize = 0;
        while i < sample_size
            invariant
                self.wf(),
                sample_size <= self@.len(),
                sample_size <= 1000,
                i <= sample_size,
                filled == used_in(self@, i as int),
                filled <= i,
            decreases sample_size - i,
        {
            let c = &self.clusters[i];
            assert(*c == self@[i as int]);
            if c.entries[0].key != 0 || c.entries[1].key != 0 || c.entries[2].key != 0 || c.entries[3].key != 0 {
                filled = filled + 1;
            }
            i = i + 1;
        }
        proof {
            assert(filled * 1000 <= sample_size * 1000) by (nonlinear_arith)
                requires
                    filled <= sample_size;
            assert((filled * 1000) / (sample_size as int) <= 1000) by (nonlinear_arith)
                requires
                    filled * 1000 <= sample_size * 1000,
                    sample_size >= 1;
        }
        ((filled * 1000) / sample_size) as u16
    }
}

/// Number of clusters among the first `n` of `cs` with an entry whose key is not zero.
pub open spec fn used_in(cs: Seq<Cluster>, n: int) -> int
    decreases n,
{
    if n <= 0 {
        0
    } else {
        used_in(cs, n - 1) + (if cs[n - 1].entries[0].key != 0 || cs[n - 1].entries[1].key != 0 || cs[n
            - 1].entries[2].key != 0 || cs[n - 1].entries[3].key != 0 {
            1int
        } else {
            0int
        })
    }
}

/// The index of the cluster of `hash` in a table of `n` clusters: its lower bits.
pub open spec fn slot_in(n: int, hash: u64) -> int {
    (hash & ((n - 1) as u64)) as int
}

/// What a read gives back of a write: once `e` is stored, probing any hash whose lower 32 bits
/// are its key finds an entry with that key; and the entry is `e` itself unless an entry with
/// the same key and more depth was there first.
pub proof fn lemma_probe_after_store(before: Seq<Cluster>, after: Seq<Cluster>, e: TranspositionEntry, hash: u64)
    requires
        1 <= before.len() <= 0x0400_0000,
        after.len() == before.len(),
        forall|i: int|
            0 <= i < before.len() && i != slot_in(before.len() as int, e.key as u64) ==> #[trigger] after[i] == before[i],
        after[slot_in(before.len() as int, e.key as u64)].entries@ == stored(
            before[slot_in(before.len() as int, e.key as u64)].entries@,
            e,
        ),
        hash as u32 == e.key,
    ensures
        ({
            let es = after[slot_in(after.len() as int, hash)].entries@;
            let old_es = before[slot_in(before.len() as int, e.key as u64)].entries@;
            &&& find(es, hash as u32) is Some
            &&& es[find(es, hash as u32)->0].key == e.key
            &&& (match find(old_es, e.key) {
                Some(j) => e.depth >= old_es[j].depth,
                None => true,
            }) ==> es[find(es, hash as u32)->0] == e
        }),
{
    let m = (before.len() - 1) as u64;
    let k = e.key;
    assert(m < 0x1_0000_0000 && k == hash as u32 ==> (hash & m) == ((k as u64) & m)) by (bit_vector);
}

} // verus!
