//! The sharded canonical set of byte buffers.
//!
//! Every buffer handed out for a byte sequence comes from the one entry the
//! pool keeps for it; the pool's own strong reference keeps the entry alive
//! until the last handle over it asks for it to be evicted.
use vstd::prelude::*;
use vstd::multiset::Multiset;
use crate::buffer::{buf_bytes, buffer_slice, new_buffer, ref_count, share_buffer};
use crate::shard::{
    empty_table, lock_shard, new_shard, shard_count_for, shard_entries, shard_index, shard_layout, shard_slot,
    keyed_unique, LockedShard, ShardTable,
};

verus! {

#[verifier::external_type_specification]
#[verifier::external_body]
pub struct ExRandomState(ahash::RandomState);

#[verifier::external_type_specification]
#[verifier::external_body]
#[verifier::reject_recursive_types(T)]
pub struct ExOnceLock<T>(std::sync::OnceLock<T>);

/// Relies on `std::sync::OnceLock::new`: a cell that holds nothing yet.
#[verifier::external_body]
fn empty_cell() -> (r: std::sync::OnceLock<triomphe::Arc<[u8]>>) {
    std::sync::OnceLock::new()
}

/// Relies on `std::sync::OnceLock::get_or_init`: the value in the pool's
/// cell, which the first call, and only it, sets to the pool's entry for
/// the empty sequence.
#[verifier::external_body]
fn default_cell(pool: &Pool) -> (r: &triomphe::Arc<[u8]>)
    ensures
        buf_bytes(*r) == Seq::<u8>::empty(),
{
    pool.default_entry.get_or_init(|| pool.get_or_insert(&[]))
}

/// Relies on `ahash::RandomState::new`: a hash builder with fresh random keys.
#[verifier::external_body]
fn new_hash_builder() -> (r: ahash::RandomState) {
    ahash::RandomState::new()
}

/// Relies on `ahash::RandomState::hash_one`: the keyed hash of the bytes `v`.
#[verifier::external_body]
fn hash_one(h: &ahash::RandomState, v: &[u8]) -> (r: u64)
    opens_invariants none
    no_unwind
{
    h.hash_one(v)
}

/// Relies on `Vec`'s indexing: the element at `i`, reached without
/// opening any invariant, so that it may run while a handle is dropped.
#[verifier::external_body]
fn shard_at(shards: &Vec<parking_lot::Mutex<ShardTable>>, i: usize) -> (r: &parking_lot::Mutex<ShardTable>)
    requires
        i < shards@.len(),
    ensures
        *r == shards@[i as int],
    opens_invariants none
    no_unwind
{
    &shards[i]
}

/// An entry is evicted only while its strong count is at most this: the
/// pool's own reference and the one of the handle being dropped.
pub const MINIMUM_STRONG_COUNT: usize = 2;

/// Whether a strong count leaves the entry open to eviction.
pub open spec fn evictable(count: usize) -> bool {
    count <= MINIMUM_STRONG_COUNT
}

/// A sharded set of shared byte buffers, at most one per distinct byte
/// sequence. Each shard is guarded by its own lock; hashing happens before
/// a lock is taken. Once the default (empty) entry has been asked for, it
/// stays for the life of the pool.
pub struct Pool {
    log2_shards: u32,
    hash_builder: ahash::RandomState,
    shards: Vec<parking_lot::Mutex<ShardTable>>,
    default_entry: std::sync::OnceLock<triomphe::Arc<[u8]>>,
}

impl Pool {
    #[verifier::type_invariant]
    spec fn inv(&self) -> bool {
        &&& 2 <= self.log2_shards < 64
        &&& self.shards@.len() == (1u64 << self.log2_shards) as nat
        &&& (1u64 << self.log2_shards) <= usize::MAX
    }

    /// The number of shards.
    pub closed spec fn shard_count(&self) -> nat {
        self.shards@.len()
    }

    /// The base-two logarithm of the number of shards.
    pub closed spec fn log2_shard_count(&self) -> u32 {
        self.log2_shards
    }

    /// An empty pool sized for a machine that runs `parallelism` threads at
    /// once (zero when unknown), with a freshly seeded hasher.
    pub fn new(parallelism: usize) -> (r: Pool)
        requires
            parallelism <= usize::MAX / 8,
        ensures
            r.shard_count() == shard_count_for(parallelism as nat),
    {
        let (count, bits) = shard_layout(parallelism);
        let mut shards: Vec<parking_lot::Mutex<ShardTable>> = Vec::new();
        let mut i: usize = 0;
        while i < count
            invariant
                i <= count,
                shards@.len() == i,
            decreases count - i,
        {
            shards.push(new_shard(empty_table()));
            i = i + 1;
        }
        Pool { log2_shards: bits, hash_builder: new_hash_builder(), shards, default_entry: empty_cell() }
    }

    /// The entry for the empty sequence, created on the first call. The
    /// pool keeps a second strong reference to it, so that it is never
    /// evicted.
    pub(crate) fn default_entry(&self) -> (r: triomphe::Arc<[u8]>)
        ensures
            buf_bytes(r) == Seq::<u8>::empty(),
    {
        share_buffer(default_cell(self))
    }

    /// The index of the shard that holds buffers whose hash is `hash`.
    fn shard_of(&self, hash: u64) -> (r: usize)
        ensures
            r < self.shard_count(),
            r as u64 == shard_slot(hash, self.log2_shard_count() as u64),
        opens_invariants none
        no_unwind
    {
        proof {
            use_type_invariant(self);
        }
        shard_index(hash, self.log2_shards)
    }

    /// The pool's buffer for `value`, created and stored first if the pool
    /// has none. The pool's own reference is stored before the caller's is
    /// returned.
    pub(crate) fn get_or_insert(&self, value: &[u8]) -> (r: triomphe::Arc<[u8]>)
        ensures
            buf_bytes(r) == value@,
    {
        let hash = hash_one(&self.hash_builder, value);
        let idx = self.shard_of(hash);
        let mut shard = lock_shard(&self.shards[idx]);
        get_or_insert_locked(&mut shard, hash, value)
    }

    /// Called as a handle over `value` goes away: removes the pool's entry
    /// for it when no other reference remains. The count is read once
    /// without the lock, to skip locking while others hold the buffer, and
    /// again under the lock, since another thread may have taken a new
    /// reference in between. Returns whether the entry was removed, with the
    /// count read first and the one read under the lock (`None` when the lock
    /// was not taken or the entry was not found).
    pub(crate) fn remove_if_needed(&self, value: &triomphe::Arc<[u8]>) -> (r: (
        bool,
        Ghost<usize>,
        Ghost<Option<usize>>,
    ))
        ensures
            r.0 ==> evictable(r.1@) && (r.2@ matches Some(c) && evictable(c)),
            !evictable(r.1@) ==> !r.0 && r.2@ is None,
        opens_invariants none
        no_unwind
    {
        let first = ref_count(value);
        if !evict_on(first) {
            return (false, Ghost(first), Ghost(None));
        }
        let hash = hash_one(&self.hash_builder, buffer_slice(value));
        let idx = self.shard_of(hash);
        let mut shard = lock_shard(shard_at(&self.shards, idx));
        let (removed, seen) = evict_locked(&mut shard, hash, value);
        (removed, Ghost(first), Ghost(seen))
    }
}

/// With the shard for `hash` locked: an entry that holds `value` if the
/// table has one, left as it is; otherwise a new buffer holding `value`,
/// which is added under `hash` before it is returned. A table in which no
/// two entries under one hash hold the same bytes stays so.
pub(crate) fn get_or_insert_locked(shard: &mut LockedShard, hash: u64, value: &[u8]) -> (r: triomphe::Arc<[u8]>)
    ensures
        buf_bytes(r) == value@,
        exists|h: u64| #[trigger] shard_entries(*final(shard)).contains((h, r)),
        (shard_entries(*final(shard)) == shard_entries(*old(shard))
            && exists|h: u64| #[trigger] shard_entries(*old(shard)).contains((h, r)))
            || (shard_entries(*final(shard)) == shard_entries(*old(shard)).insert((hash, r))
            && forall|b: triomphe::Arc<[u8]>|
                #[trigger] shard_entries(*old(shard)).contains((hash, b)) ==> buf_bytes(b) != value@),
        keyed_unique(shard_entries(*old(shard))) ==> keyed_unique(shard_entries(*final(shard))),
{
    match shard.find_bytes(hash, value) {
        Some(found) => share_buffer(found),
        None => {
            let created = new_buffer(value);
            let ghost before = shard_entries(*shard);
            shard.insert(hash, share_buffer(&created));
            proof {
                let after = shard_entries(*shard);
                assert(after.contains((hash, created)));
                assert(!before.contains((hash, created)));
                if keyed_unique(before) {
                    assert forall|e1: (u64, triomphe::Arc<[u8]>), e2: (u64, triomphe::Arc<[u8]>)|
                        #[trigger] after.contains(e1) && #[trigger] after.contains(e2) && e1.0 == e2.0
                            && buf_bytes(e1.1) == buf_bytes(e2.1) implies e1 == e2 && after.count(e1) == 1 by {
                        if e1 != (hash, created) && e2 != (hash, created) {
                            assert(before.contains(e1) && before.contains(e2));
                        } else if e1 == (hash, created) && e2 != (hash, created) {
                            assert(before.contains(e2));
                        } else if e1 != (hash, created) && e2 == (hash, created) {
                            assert(before.contains(e1));
                        }
                    }
                }
            }
            created
        },
    }
}

/// With the shard for `hash` locked: reads the strong count of the entry
/// that is the allocation `value`, if the table holds it, and removes that
/// entry exactly when the count allows eviction. Returns whether it removed
/// it, and the count it read.
pub(crate) fn evict_locked(shard: &mut LockedShard, hash: u64, value: &triomphe::Arc<[u8]>) -> (r: (
    bool,
    Option<usize>,
))
    ensures
        r.0 ==> (r.1 matches Some(c) && evictable(c)),
        (r.1 matches Some(c) && evictable(c)) && shard_entries(*old(shard)).contains((hash, *value)) ==> r.0,
        shard_entries(*old(shard)).contains((hash, *value)) ==> r.1 is Some,
        r.0 ==> exists|h: u64| #[trigger] shard_entries(*old(shard)).contains((h, *value))
            && shard_entries(*final(shard)) == shard_entries(*old(shard)).remove((h, *value)),
        !r.0 ==> shard_entries(*final(shard)) == shard_entries(*old(shard)),
        keyed_unique(shard_entries(*old(shard))) ==> keyed_unique(shard_entries(*final(shard))),
    opens_invariants none
    no_unwind
{
    let ghost before = shard_entries(*shard);
    let seen = match shard.find_buffer(hash, value) {
        Some(entry) => Some(ref_count(entry)),
        None => None,
    };
    if evict_found(seen) {
        let removed = shard.remove_buffer(hash, value);
        proof {
            let after = shard_entries(*shard);
            if keyed_unique(before) {
                assert forall|e1: (u64, triomphe::Arc<[u8]>), e2: (u64, triomphe::Arc<[u8]>)|
                    #[trigger] after.contains(e1) && #[trigger] after.contains(e2) && e1.0 == e2.0
                        && buf_bytes(e1.1) == buf_bytes(e2.1) implies e1 == e2 && after.count(e1) == 1 by {
                    assert(before.contains(e1) && before.contains(e2));
                }
            }
        }
        (removed, seen)
    } else {
        (false, seen)
    }
}

/// Whether the entry found under the lock, given by a snapshot of its
/// strong count, is to be evicted: only an entry that is there and whose
/// count allows it.
pub fn evict_found(found: Option<usize>) -> (r: bool)
    ensures
        r == (found matches Some(c) && evictable(c)),
    opens_invariants none
    no_unwind
{
    match found {
        Some(c) => evict_on(c),
        None => false,
    }
}

/// Whether a snapshot `count` of an entry's strong count allows evicting it.
pub fn evict_on(count: usize) -> (r: bool)
    ensures
        r == evictable(count),
    opens_invariants none
    no_unwind
{
    count <= MINIMUM_STRONG_COUNT
}

/// The sum of the numbers in `s`.
pub open spec fn total_of(s: Seq<usize>) -> nat
    decreases s.len(),
{
    if s.len() == 0 {
        0
    } else {
        total_of(s.drop_last()) + s.last() as nat
    }
}

/// `n`, or `usize::MAX` if `n` is larger.
pub open spec fn capped(n: nat) -> nat {
    if n <= usize::MAX {
        n
    } else {
        usize::MAX as nat
    }
}

/// The number of entries of all of `tables` together.
pub open spec fn entries_total(tables: Seq<Multiset<(u64, triomphe::Arc<[u8]>)>>) -> nat
    decreases tables.len(),
{
    if tables.len() == 0 {
        0
    } else {
        entries_total(tables.drop_last()) + tables.last().len()
    }
}

proof fn lemma_totals_agree(lens: Seq<usize>, tables: Seq<Multiset<(u64, triomphe::Arc<[u8]>)>>)
    requires
        lens.len() == tables.len(),
        forall|i: int| 0 <= i < lens.len() ==> lens[i] == #[trigger] tables[i].len(),
    ensures
        total_of(lens) == entries_total(tables),
    decreases lens.len(),
{
    if lens.len() > 0 {
        let n = lens.len() - 1;
        assert(lens[n as int] == tables[n as int].len());
        lemma_totals_agree(lens.drop_last(), tables.drop_last());
    }
}

/// The sum of `lens`, capped at `usize::MAX`.
pub fn capped_total(lens: &Vec<usize>) -> (r: usize)
    ensures
        r == capped(total_of(lens@)),
{
    let mut total: usize = 0;
    let mut i: usize = 0;
    while i < lens.len()
        invariant
            i <= lens@.len(),
            total == if total_of(lens@.take(i as int)) <= usize::MAX {
                total_of(lens@.take(i as int))
            } else {
                usize::MAX as nat
            },
        decreases lens@.len() - i,
    {
        assert(lens@.take(i + 1).drop_last() =~= lens@.take(i as int));
        let n = lens[i];
        total = if total > usize::MAX - n { usize::MAX } else { total + n };
        i = i + 1;
    }
    assert(lens@.take(lens@.len() as int) =~= lens@);
    total
}

/// The number of entries of each shard of `pool`, read one lock at a time,
/// with the entries of each table as it was while its lock was held.
fn shard_lens(pool: &Pool) -> (r: (Vec<usize>, Ghost<Seq<Multiset<(u64, triomphe::Arc<[u8]>)>>>))
    ensures
        r.0@.len() == pool.shard_count(),
        r.1@.len() == r.0@.len(),
        forall|i: int| 0 <= i < r.0@.len() ==> r.0@[i] == #[trigger] r.1@[i].len(),
{
    let mut lens: Vec<usize> = Vec::new();
    let ghost mut tables: Seq<Multiset<(u64, triomphe::Arc<[u8]>)>> = Seq::empty();
    let mut i: usize = 0;
    while i < pool.shards.len()
        invariant
            i <= pool.shards@.len(),
            lens@.len() == i,
            tables.len() == i,
            forall|j: int| 0 <= j < i ==> lens@[j] == #[trigger] tables[j].len(),
        decreases pool.shards@.len() - i,
    {
        let shard = lock_shard(&pool.shards[i]);
        lens.push(shard.len());
        proof {
            tables = tables.push(shard_entries(shard));
        }
        i = i + 1;
    }
    (lens, Ghost(tables))
}

/// The number of entries in `pool`, summed over the shards one lock at a
/// time (capped at `usize::MAX`), with the entries of each shard's table as
/// it was read under that shard's lock.
pub fn observed_len(pool: &Pool) -> (r: (usize, Ghost<Seq<Multiset<(u64, triomphe::Arc<[u8]>)>>>))
    ensures
        r.1@.len() == pool.shard_count(),
        r.0 == capped(entries_total(r.1@)),
{
    let (lens, tables) = shard_lens(pool);
    proof {
        lemma_totals_agree(lens@, tables@);
    }
    (capped_total(&lens), tables)
}

/// The number of entries in `pool`, as `observed_len` reads it: exact only
/// while no other thread changes the pool.
pub fn len(pool: &Pool) -> (r: usize) {
    observed_len(pool).0
}

/// Whether `pool` holds no entry, as `observed_len` reads it: exact only
/// while no other thread changes the pool.
pub fn is_empty(pool: &Pool) -> (r: bool) {
    observed_len(pool).0 == 0
}

} // verus!
