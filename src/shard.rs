//! Shards of the pool: a mutex around a hash table of buffers, and the
//! arithmetic that spreads hashes over a power-of-two number of shards.
use vstd::prelude::*;
use vstd::multiset::Multiset;
use crate::buffer::{buf_bytes, holds_bytes, is_buffer};

verus! {

#[verifier::external_type_specification]
#[verifier::external_body]
pub struct ExRawMutex(parking_lot::RawMutex);

#[verifier::external_type_specification]
#[verifier::external_body]
#[verifier::reject_recursive_types(R)]
#[verifier::reject_recursive_types(T)]
pub struct ExMutex<R, T: ?Sized>(parking_lot::lock_api::Mutex<R, T>);

/// The hash table of one shard. Each buffer is stored together with the
/// hash it was inserted under, which is also what the table rehashes it by.
#[verifier::external_body]
pub struct ShardTable {
    entries: hashbrown::HashTable<(u64, triomphe::Arc<[u8]>)>,
}

/// A shard whose lock is held; the lock is released when this value is dropped.
#[verifier::external_body]
pub struct LockedShard<'a> {
    guard: parking_lot::MutexGuard<'a, ShardTable>,
}

/// Relies on `hashbrown::HashTable::new`: an empty table.
#[verifier::external_body]
pub(crate) fn empty_table() -> (r: ShardTable) {
    ShardTable { entries: hashbrown::HashTable::new() }
}

/// Relies on `parking_lot::Mutex::new`: an unlocked mutex around `t`.
#[verifier::external_body]
pub(crate) fn new_shard(t: ShardTable) -> (r: parking_lot::Mutex<ShardTable>) {
    parking_lot::Mutex::new(t)
}

/// Relies on `parking_lot::Mutex::lock`: blocks until the lock is held.
#[verifier::external_body]
pub(crate) fn lock_shard(m: &parking_lot::Mutex<ShardTable>) -> (r: LockedShard<'_>)
    opens_invariants none
    no_unwind
{
    LockedShard { guard: m.lock() }
}

/// The entries of the table of a locked shard: each buffer with the hash it
/// was inserted under.
pub uninterp spec fn shard_entries(s: LockedShard) -> Multiset<(u64, triomphe::Arc<[u8]>)>;

impl<'a> LockedShard<'a> {
    /// Relies on `hashbrown::HashTable::find`: an entry for which the
    /// predicate holds, here one holding the bytes `v`; `None` only when no
    /// entry inserted under `hash` holds them.
    #[verifier::external_body]
    pub(crate) fn find_bytes(&self, hash: u64, v: &[u8]) -> (r: Option<&triomphe::Arc<[u8]>>)
        ensures
            r matches Some(b) ==> buf_bytes(*b) == v@
                && exists|h: u64| #[trigger] shard_entries(*self).contains((h, *b)),
            r is None ==> forall|b: triomphe::Arc<[u8]>|
                #[trigger] shard_entries(*self).contains((hash, b)) ==> buf_bytes(b) != v@,
    {
        self.guard.entries.find(hash, |o| holds_bytes(&o.1, v)).map(|o| &o.1)
    }

    /// Relies on `hashbrown::HashTable::find`: an entry for which the
    /// predicate holds, here the allocation `b` itself; `None` only when `b`
    /// is not an entry inserted under `hash`.
    #[verifier::external_body]
    pub(crate) fn find_buffer(&self, hash: u64, b: &triomphe::Arc<[u8]>) -> (r: Option<&triomphe::Arc<[u8]>>)
        ensures
            r matches Some(f) ==> *f == *b && exists|h: u64| #[trigger] shard_entries(*self).contains((h, *b)),
            r is None ==> !shard_entries(*self).contains((hash, *b)),
        opens_invariants none
        no_unwind
    {
        self.guard.entries.find(hash, |o| is_buffer(&o.1, b)).map(|o| &o.1)
    }

    /// Relies on `hashbrown::HashTable::insert_unique`: adds `b` as a new
    /// entry under `hash`. An entry moved when the table grows keeps the hash
    /// stored with it.
    #[verifier::external_body]
    pub(crate) fn insert(&mut self, hash: u64, b: triomphe::Arc<[u8]>)
        ensures
            shard_entries(*final(self)) == shard_entries(*old(self)).insert((hash, b)),
    {
        self.guard.entries.insert_unique(hash, (hash, b), |o| o.0);
    }

    /// Relies on `hashbrown::HashTable::find_entry` and `OccupiedEntry::remove`:
    /// takes out one entry that is the allocation `b`, and tells whether
    /// there was one, as there is when `b` was inserted under `hash`; the
    /// table is untouched otherwise.
    #[verifier::external_body]
    pub(crate) fn remove_buffer(&mut self, hash: u64, b: &triomphe::Arc<[u8]>) -> (removed: bool)
        ensures
            removed ==> exists|h: u64| #[trigger] shard_entries(*old(self)).contains((h, *b))
                && shard_entries(*final(self)) == shard_entries(*old(self)).remove((h, *b)),
            !removed ==> shard_entries(*final(self)) == shard_entries(*old(self)),
            shard_entries(*old(self)).contains((hash, *b)) ==> removed,
        opens_invariants none
        no_unwind
    {
        match self.guard.entries.find_entry(hash, |o| is_buffer(&o.1, b)) {
            Ok(entry) => {
                entry.remove();
                true
            },
            Err(_) => false,
        }
    }

    /// Relies on `hashbrown::HashTable::len`: the number of entries.
    #[verifier::external_body]
    pub(crate) fn len(&self) -> (r: usize)
        ensures
            r == shard_entries(*self).len(),
    {
        self.guard.entries.len()
    }
}

/// No two entries inserted under one hash hold the same bytes, and none is
/// there twice.
pub open spec fn keyed_unique(m: Multiset<(u64, triomphe::Arc<[u8]>)>) -> bool {
    forall|e1: (u64, triomphe::Arc<[u8]>), e2: (u64, triomphe::Arc<[u8]>)|
        #[trigger] m.contains(e1) && #[trigger] m.contains(e2) && e1.0 == e2.0
            && buf_bytes(e1.1) == buf_bytes(e2.1) ==> e1 == e2 && m.count(e1) == 1
}

/// The smallest power of two that is at least `n`, searching upwards from `c`.
pub open spec fn least_pow2_from(n: nat, c: nat) -> nat
    decreases (if c < n { n - c } else { 0 }),
{
    if c == 0 || c >= n {
        c
    } else {
        least_pow2_from(n, 2 * c)
    }
}

/// The number of shards for a machine that reports `parallelism` threads:
/// the next power of two of four times the parallelism, which counts as one
/// when unknown or zero.
pub open spec fn shard_count_for(parallelism: nat) -> nat {
    least_pow2_from(4 * if parallelism == 0 { 1 } else { parallelism }, 1)
}

proof fn lemma_shl_double(b: u64)
    requires
        b < 63,
    ensures
        (1u64 << b) * 2 == 1u64 << (b + 1),
        (1u64 << b) < 0x8000_0000_0000_0000u64,
{
    assert((1u64 << b) * 2 == 1u64 << (b + 1)) by (bit_vector)
        requires b < 63;
    assert((1u64 << b) < 0x8000_0000_0000_0000u64) by (bit_vector)
        requires b < 63;
}

proof fn lemma_shl_small(b: u64)
    requires
        b < 64,
        (1u64 << b) < 0x8000_0000_0000_0000u64,
    ensures
        b < 63,
{
    assert(b < 63) by (bit_vector)
        requires
            b < 64,
            (1u64 << b) < 0x8000_0000_0000_0000u64;
}

proof fn lemma_shl_at_least_four(b: u64)
    requires
        b < 64,
        (1u64 << b) >= 4,
    ensures
        b >= 2,
{
    assert(b >= 2) by (bit_vector)
        requires
            b < 64,
            (1u64 << b) >= 4;
}

/// The shard count for `parallelism` and its base-two logarithm.
pub fn shard_layout(parallelism: usize) -> (r: (usize, u32))
    requires
        parallelism <= usize::MAX / 8,
    ensures
        r.0 == shard_count_for(parallelism as nat),
        2 <= r.1 < 64,
        r.0 as u64 == 1u64 << r.1,
{
    let n: usize = if parallelism == 0 { 4 } else { parallelism * 4 };
    let mut count: u64 = 1;
    let mut bits: u32 = 0;
    proof {
        assert((1u64 << 0u64) == 1u64) by (bit_vector);
    }
    while count < n as u64
        invariant
            n == 4 * (if parallelism == 0 { 1 } else { parallelism as nat }),
            n <= usize::MAX / 2,
            1 <= count,
            bits < 64,
            count == 1u64 << bits,
            count <= 2 * n,
            least_pow2_from(n as nat, count as nat) == shard_count_for(parallelism as nat),
        decreases 2 * (n as int) - (count as int),
    {
        proof {
            lemma_shl_small(bits as u64);
            lemma_shl_double(bits as u64);
        }
        count = count * 2;
        bits = bits + 1;
    }
    proof {
        lemma_shl_at_least_four(bits as u64);
    }
    (count as usize, bits)
}

/// The shard, out of `2^bits`, for a value whose hash is `hash`: the `bits`
/// bits of the hash that follow its top seven, so that the shard is not
/// picked by the bits the per-shard table uses.
pub open spec fn shard_slot(hash: u64, bits: u64) -> u64 {
    (hash << 7u64) >> ((64 - bits) as u64)
}

/// The shard, out of `2^bits`, that holds values whose hash is `hash`.
pub fn shard_index(hash: u64, bits: u32) -> (r: usize)
    requires
        1 <= bits < 64,
        (1u64 << bits) <= usize::MAX,
    ensures
        r as u64 == shard_slot(hash, bits as u64),
        (r as u64) < (1u64 << bits),
    opens_invariants none
    no_unwind
{
    let b: u64 = bits as u64;
    let shift: u64 = 64 - b;
    let idx: u64 = (hash << 7u64) >> shift;
    assert(((hash << 7u64) >> shift) < (1u64 << b)) by (bit_vector)
        requires
            1 <= b < 64,
            shift == 64 - b;
    idx as usize
}

} // verus!
