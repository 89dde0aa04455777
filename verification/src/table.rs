//! The transposition table: a cache of fixed size, one entry per bucket, that
//! remembers what the search found out about positions it has seen.
//!
//! The buckets are a [`chess::CacheTable`]; what is decided here is what an
//! entry says, when it may be believed, and how mate scores are stored so that
//! they mean the same at every distance from the root.

use vstd::prelude::*;

use crate::board::Move;
use crate::{INFINITY, MAX_PLY};

verus! {

/// No table has more buckets than this.
pub const MAX_CAPACITY: usize = 16777216;

/// What a stored score says about the true one.
#[derive(Clone, Copy, Debug, PartialEq, Eq, PartialOrd, Structural)]
pub enum Bound {
    /// The score is the position's score.
    Exact,
    /// The position is worth at least the score: the search was cut off.
    LowerBound,
    /// The position is worth at most the score: no move raised alpha.
    UpperBound,
}

/// What the table remembers of one position.
#[derive(Clone, Copy, Debug, PartialEq, PartialOrd)]
pub struct TranspositionEntry {
    /// How deep the position was searched.
    pub depth: u8,
    /// The score found, with mate scores counted from the root.
    pub score: i32,
    /// The move that did best.
    pub best_move: Move,
    /// What the score says about the true one.
    pub flag: Bound,
}

impl TranspositionEntry {
    /// A stored score is a score of the search, moved by at most `MAX_PLY`.
    pub open spec fn wf(&self) -> bool {
        -INFINITY - MAX_PLY <= self.score <= INFINITY + MAX_PLY
    }
}

/// The entry that an unused bucket holds; its depth of zero answers no probe
/// of the search.
pub open spec fn vacant() -> TranspositionEntry {
    TranspositionEntry {
        depth: 0,
        score: 0,
        best_move: Move { from: 0, to: 0, promotion: None },
        flag: Bound::UpperBound,
    }
}

/// Whether a size is a power of two.
pub open spec fn is_power_of_two(size: usize) -> bool {
    size > 0 && size & ((size - 1) as usize) == 0
}

/// A score as it is stored: a mate score found `ply` plies from the root is
/// moved away from zero by `ply`, so that it counts from the node itself.
pub open spec fn to_table_score(score: int, ply: int) -> int {
    if score > INFINITY / 2 {
        score + ply
    } else if score < -(INFINITY / 2) {
        score - ply
    } else {
        score
    }
}

/// A stored score as a node `ply` plies from the root reads it.
pub open spec fn from_table_score(stored: int, ply: int) -> int {
    if stored > INFINITY / 2 {
        stored - ply
    } else if stored < -(INFINITY / 2) {
        stored + ply
    } else {
        stored
    }
}

/// What a score says about a node searched with the window `alpha`, `beta`.
pub open spec fn bound_of(score: int, alpha: int, beta: int) -> Bound {
    if score >= beta {
        Bound::LowerBound
    } else if score <= alpha {
        Bound::UpperBound
    } else {
        Bound::Exact
    }
}

/// The score that settles a node at once, if the entry found for it does:
/// the entry must come from a search at least as deep, and its score must be
/// exact, or a lower bound that reaches beta, or an upper bound that stays at
/// or below alpha.
pub open spec fn probe_result(
    entry: Option<TranspositionEntry>,
    depth: u8,
    alpha: int,
    beta: int,
    ply: u8,
) -> Option<int> {
    match entry {
        Some(e) => {
            let score = from_table_score(e.score as int, ply as int);
            if e.depth < depth {
                None
            } else if e.flag == Bound::Exact {
                Some(score)
            } else if e.flag == Bound::LowerBound && score >= beta {
                Some(score)
            } else if e.flag == Bound::UpperBound && score <= alpha {
                Some(score)
            } else {
                None
            }
        },
        None => None,
    }
}

/// The entry that a node leaves behind.
pub open spec fn entry_of(
    depth: u8,
    score: int,
    alpha: int,
    beta: int,
    ply: u8,
    best_move: Move,
) -> TranspositionEntry {
    TranspositionEntry {
        depth,
        score: to_table_score(score, ply as int) as i32,
        best_move,
        flag: bound_of(score, alpha, beta),
    }
}

/// The bucket that a hash falls into.
pub open spec fn bucket_of(hash: u64, buckets: nat) -> int {
    hash as int % buckets as int
}

/// What a table of buckets answers for a hash: the entry of the hash's
/// bucket, if that entry was stored under this very hash.
pub open spec fn lookup_in(slots: Seq<(u64, TranspositionEntry)>, hash: u64) -> Option<
    TranspositionEntry,
> {
    let slot = slots[bucket_of(hash, slots.len())];
    if slot.0 == hash {
        Some(slot.1)
    } else {
        None
    }
}

/// Storing a score and reading it back at the same distance from the root
/// gives the score.
pub proof fn lemma_table_score_round_trip(score: int, ply: int)
    requires
        0 <= ply <= MAX_PLY,
    ensures
        from_table_score(to_table_score(score, ply), ply) == score,
{
}

/// A mate score is stored as the distance from the node to the mate: found at
/// `stored_at` plies and read at `read_at` plies from the root, it moves by the
/// difference.
pub proof fn lemma_table_score_shift(score: int, stored_at: int, read_at: int)
    requires
        0 <= stored_at <= MAX_PLY,
        0 <= read_at <= MAX_PLY,
        -INFINITY <= score <= INFINITY,
    ensures
        score > INFINITY / 2 ==> from_table_score(to_table_score(score, stored_at), read_at)
            == score + stored_at - read_at,
        score < -(INFINITY / 2) ==> from_table_score(to_table_score(score, stored_at), read_at)
            == score - stored_at + read_at,
        -(INFINITY / 2) <= score <= INFINITY / 2 ==> from_table_score(
            to_table_score(score, stored_at),
            read_at,
        ) == score,
{
}

/// A table gives back what was put into it last: after an entry is stored
/// under a hash, the hash finds that entry, and every hash of another bucket
/// finds what it found before.
pub proof fn lemma_put_then_get(
    slots: Seq<(u64, TranspositionEntry)>,
    hash: u64,
    entry: TranspositionEntry,
    other: u64,
)
    requires
        slots.len() > 0,
    ensures
        lookup_in(slots.update(bucket_of(hash, slots.len()), (hash, entry)), hash) == Some(entry),
        bucket_of(other, slots.len()) != bucket_of(hash, slots.len()) ==> lookup_in(
            slots.update(bucket_of(hash, slots.len()), (hash, entry)),
            other,
        ) == lookup_in(slots, other),
{
}

/// The score of the search as the table keeps it.
pub fn table_score(score: i32, ply: u8) -> (r: i32)
    requires
        -INFINITY <= score <= INFINITY,
    ensures
        r == to_table_score(score as int, ply as int),
{
    if score > INFINITY / 2 {
        score + ply as i32
    } else if score < -(INFINITY / 2) {
        score - ply as i32
    } else {
        score
    }
}

/// A stored score as a node `ply` plies from the root reads it.
pub fn node_score(stored: i32, ply: u8) -> (r: i32)
    ensures
        r == from_table_score(stored as int, ply as int),
{
    if stored > INFINITY / 2 {
        stored - ply as i32
    } else if stored < -(INFINITY / 2) {
        stored + ply as i32
    } else {
        stored
    }
}

/// What a score says about a node searched with the window `alpha`, `beta`.
pub fn bound_for(score: i32, alpha: i32, beta: i32) -> (r: Bound)
    ensures
        r == bound_of(score as int, alpha as int, beta as int),
{
    if score >= beta {
        Bound::LowerBound
    } else if score <= alpha {
        Bound::UpperBound
    } else {
        Bound::Exact
    }
}

/// The score that settles a node at once, if the entry found for it does.
pub fn probe(entry: Option<TranspositionEntry>, depth: u8, alpha: i32, beta: i32, ply: u8) -> (r:
    Option<i32>)
    ensures
        r matches Some(score) ==> probe_result(entry, depth, alpha as int, beta as int, ply)
            == Some(score as int),
        r is None ==> probe_result(entry, depth, alpha as int, beta as int, ply) is None,
{
    match entry {
        Some(e) => {
            let score = node_score(e.score, ply);
            if e.depth < depth {
                None
            } else {
                match e.flag {
                    Bound::Exact => Some(score),
                    Bound::LowerBound => if score >= beta {
                        Some(score)
                    } else {
                        None
                    },
                    Bound::UpperBound => if score <= alpha {
                        Some(score)
                    } else {
                        None
                    },
                }
            }
        },
        None => None,
    }
}

/// The entry that a node `ply` plies from the root leaves behind, after it
/// was searched to `depth` with the window `alpha`, `beta` and scored `score`.
pub fn make_entry(depth: u8, score: i32, alpha: i32, beta: i32, ply: u8, best_move: Move) -> (r:
    TranspositionEntry)
    requires
        -INFINITY <= score <= INFINITY,
        ply <= MAX_PLY,
    ensures
        r == entry_of(depth, score as int, alpha as int, beta as int, ply, best_move),
        r.wf(),
{
    TranspositionEntry {
        depth,
        score: table_score(score, ply),
        best_move,
        flag: bound_for(score, alpha, beta),
    }
}

/// The transposition table. A table that is switched off finds nothing and
/// keeps nothing.
pub struct TranspositionTable {
    table: chess::CacheTable<TranspositionEntry>,
    enabled: bool,
}

impl TranspositionTable {
    #[verifier::type_invariant]
    spec fn inv(self) -> bool {
        &&& 0 < table_slots(self.table).len() <= MAX_CAPACITY
        &&& forall|i: int|
            0 <= i < table_slots(self.table).len() ==> (#[trigger] table_slots(
                self.table,
            )[i]).1.wf()
    }

    /// The buckets, each with the hash it was filled under and its entry.
    pub closed spec fn slots(&self) -> Seq<(u64, TranspositionEntry)> {
        table_slots(self.table)
    }

    /// Whether the table is switched on.
    pub closed spec fn enabled(&self) -> bool {
        self.enabled
    }

    /// What the table answers for a hash.
    pub open spec fn lookup(&self, hash: u64) -> Option<TranspositionEntry> {
        if self.enabled() {
            lookup_in(self.slots(), hash)
        } else {
            None
        }
    }

    /// A table of `capacity` buckets, which must be a power of two and at
    /// most `MAX_CAPACITY`; every bucket starts vacant.
    pub fn new(capacity: usize) -> (r: Option<TranspositionTable>)
        ensures
            r is Some <==> is_power_of_two(capacity) && capacity <= MAX_CAPACITY,
            r matches Some(t) ==> t.enabled() && t.slots() == Seq::new(
                capacity as nat,
                |i: int| (0u64, vacant()),
            ),
    {
        if capacity == 0 || capacity > MAX_CAPACITY || capacity & (capacity - 1) != 0 {
            return None;
        }
        let default = TranspositionEntry {
            depth: 0,
            score: 0,
            best_move: Move { from: 0, to: 0, promotion: None },
            flag: Bound::UpperBound,
        };
        Some(TranspositionTable { table: table_new(capacity, default), enabled: true })
    }

    /// A table that is switched off, with one vacant bucket.
    pub fn disabled() -> (r: TranspositionTable)
        ensures
            !r.enabled(),
            r.slots() == Seq::new(1, |i: int| (0u64, vacant())),
    {
        let default = TranspositionEntry {
            depth: 0,
            score: 0,
            best_move: Move { from: 0, to: 0, promotion: None },
            flag: Bound::UpperBound,
        };
        assert(1usize & ((1usize - 1) as usize) == 0) by (bit_vector);
        TranspositionTable { table: table_new(1, default), enabled: false }
    }

    /// Whether the table is switched on.
    pub fn is_enabled(&self) -> (r: bool)
        ensures
            r == self.enabled(),
    {
        self.enabled
    }

    /// The entry stored under `hash`, if the hash's bucket holds one.
    pub fn get(&self, hash: u64) -> (r: Option<TranspositionEntry>)
        ensures
            r == self.lookup(hash),
            r matches Some(e) ==> e.wf(),
    {
        if !self.enabled {
            return None;
        }
        proof {
            use_type_invariant(self);
            let n = table_slots(self.table).len() as int;
            assert(0 <= hash as int % n < n);
        }
        table_get(&self.table, hash)
    }

    /// Stores `entry` under `hash`, whatever the hash's bucket held before.
    pub fn put(&mut self, hash: u64, entry: TranspositionEntry)
        requires
            entry.wf(),
        ensures
            final(self).enabled() == old(self).enabled(),
            old(self).enabled() ==> final(self).slots() == old(self).slots().update(
                bucket_of(hash, old(self).slots().len()),
                (hash, entry),
            ),
            !old(self).enabled() ==> final(self).slots() == old(self).slots(),
            final(self).slots().len() == old(self).slots().len(),
            old(self).enabled() ==> final(self).lookup(hash) == Some(entry),
    {
        proof {
            use_type_invariant(&*self);
            let n = table_slots(self.table).len() as int;
            assert(0 <= hash as int % n < n);
        }
        if self.enabled {
            table_add(&mut self.table, hash, entry);
        }
    }
}

// ---------------------------------------------------------------------------
// What is taken on trust from the `chess` crate.
// ---------------------------------------------------------------------------

/// `chess::CacheTable`, a table of a fixed number of buckets; what is known
/// of one is what `table_slots` says it holds.
#[verifier::external_type_specification]
#[verifier::external_body]
#[verifier::reject_recursive_types(T)]
pub struct ExCacheTable<T: Copy + Clone + PartialEq + PartialOrd>(chess::CacheTable<T>);

/// The buckets of a `chess::CacheTable`, in order: each holds the hash it was
/// last filled under and the entry stored with it.
pub uninterp spec fn table_slots(table: chess::CacheTable<TranspositionEntry>) -> Seq<
    (u64, TranspositionEntry),
>;

/// `chess::CacheTable::new`: `size` buckets, each holding the hash 0 and the
/// default entry. The crate panics unless exactly one bit of `size` is set.
#[verifier::external_body]
fn table_new(size: usize, default: TranspositionEntry) -> (r: chess::CacheTable<
    TranspositionEntry,
>)
    requires
        is_power_of_two(size),
        size <= MAX_CAPACITY,
    ensures
        table_slots(r) == Seq::new(size as nat, |i: int| (0u64, default)),
{
    chess::CacheTable::new(size, default)
}

/// `chess::CacheTable::get`: looks at the bucket that the hash selects by its
/// low bits, which for a power of two of buckets is the hash modulo their
/// number, and gives the entry there if it was stored under the same hash.
#[verifier::external_body]
fn table_get(table: &chess::CacheTable<TranspositionEntry>, hash: u64) -> (r: Option<
    TranspositionEntry,
>)
    ensures
        r == lookup_in(table_slots(*table), hash),
{
    table.get(hash)
}

/// `chess::CacheTable::add`: overwrites the bucket that the hash selects. It
/// writes one bucket in place and cannot fail.
#[verifier::external_body]
fn table_add(table: &mut chess::CacheTable<TranspositionEntry>, hash: u64, entry: TranspositionEntry)
    ensures
        table_slots(*final(table)) == table_slots(*old(table)).update(
            bucket_of(hash, table_slots(*old(table)).len()),
            (hash, entry),
        ),
    no_unwind
{
    table.add(hash, entry)
}

} // verus!
