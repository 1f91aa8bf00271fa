//! Shared immutable byte buffers, the unit that the pool deduplicates.
//!
//! A buffer is a `triomphe::Arc<[u8]>`. Its contents never change, so they
//! are a function of the buffer value (`buf_bytes`). Two buffer values are
//! equal exactly when they point at the same allocation, which is what the
//! handles of this crate use as their identity.
use vstd::prelude::*;

verus! {

#[verifier::external_type_specification]
#[verifier::external_body]
#[verifier::reject_recursive_types(T)]
pub struct ExArc<T: ?Sized>(triomphe::Arc<T>);

/// The bytes held by a shared buffer.
pub uninterp spec fn buf_bytes(b: triomphe::Arc<[u8]>) -> Seq<u8>;

/// Relies on `triomphe::Arc::<[u8]>::from(&[u8])`: a fresh allocation holding a copy of `v`.
#[verifier::external_body]
pub(crate) fn new_buffer(v: &[u8]) -> (r: triomphe::Arc<[u8]>)
    ensures
        buf_bytes(r) == v@,
{
    triomphe::Arc::from(v)
}

/// Relies on `triomphe::Arc::clone`: a new strong reference to the same allocation.
#[verifier::external_body]
pub(crate) fn share_buffer(b: &triomphe::Arc<[u8]>) -> (r: triomphe::Arc<[u8]>)
    ensures
        r == *b,
    opens_invariants none
    no_unwind
{
    b.clone()
}

/// Relies on `triomphe::Arc::ptr_eq`: true exactly when both point at one allocation.
#[verifier::external_body]
pub(crate) fn same_buffer(a: &triomphe::Arc<[u8]>, b: &triomphe::Arc<[u8]>) -> (r: bool)
    ensures
        r == (*a == *b),
    opens_invariants none
    no_unwind
{
    triomphe::Arc::ptr_eq(a, b)
}

/// Relies on `triomphe::Arc`'s `Deref`: the slice stored in the allocation.
#[verifier::external_body]
pub(crate) fn buffer_slice(b: &triomphe::Arc<[u8]>) -> (r: &[u8])
    ensures
        r@ == buf_bytes(*b),
    opens_invariants none
    no_unwind
{
    &**b
}

/// Relies on `triomphe::Arc::strong_count`: a snapshot of the number of strong
/// references, which other threads may change at any time.
#[verifier::external_body]
pub(crate) fn ref_count(b: &triomphe::Arc<[u8]>) -> (r: usize)
    opens_invariants none
    no_unwind
{
    triomphe::Arc::strong_count(b)
}

/// Relies on `triomphe::Arc::as_ptr`: feeds the address of the allocation to `state`.
#[verifier::external_body]
pub(crate) fn hash_address<H: core::hash::Hasher>(b: &triomphe::Arc<[u8]>, state: &mut H) {
    core::hash::Hash::hash(&triomphe::Arc::as_ptr(b).addr(), state)
}

/// Whether `b` holds exactly the bytes `v`.
pub fn holds_bytes(b: &triomphe::Arc<[u8]>, v: &[u8]) -> (r: bool)
    ensures
        r == (buf_bytes(*b) == v@),
{
    bytes_equal(buffer_slice(b), v)
}

/// Whether `a` and `b` are the same allocation.
pub fn is_buffer(a: &triomphe::Arc<[u8]>, b: &triomphe::Arc<[u8]>) -> (r: bool)
    ensures
        r == (*a == *b),
    opens_invariants none
    no_unwind
{
    same_buffer(a, b)
}

/// Byte-wise equality of two slices.
pub fn bytes_equal(a: &[u8], b: &[u8]) -> (r: bool)
    ensures
        r == (a@ == b@),
{
    if a.len() != b.len() {
        return false;
    }
    let mut i: usize = 0;
    while i < a.len()
        invariant
            a@.len() == b@.len(),
            i <= a@.len(),
            forall|j: int| 0 <= j < i ==> a@[j] == b@[j],
        decreases a@.len() - i,
    {
        if a[i] != b[i] {
            return false;
        }
        i = i + 1;
    }
    assert(a@ =~= b@);
    true
}

/// Lexicographic order on byte sequences: the first differing byte decides,
/// and a proper prefix comes before the longer sequence.
pub open spec fn lex_cmp(a: Seq<u8>, b: Seq<u8>) -> core::cmp::Ordering
    decreases a.len(),
{
    if a.len() == 0 {
        if b.len() == 0 {
            core::cmp::Ordering::Equal
        } else {
            core::cmp::Ordering::Less
        }
    } else if b.len() == 0 {
        core::cmp::Ordering::Greater
    } else if a[0] < b[0] {
        core::cmp::Ordering::Less
    } else if a[0] > b[0] {
        core::cmp::Ordering::Greater
    } else {
        lex_cmp(a.drop_first(), b.drop_first())
    }
}

/// Comparing byte sequences in lexicographic order gives `Equal` exactly
/// when they are the same sequence.
pub proof fn lemma_lex_cmp_equal_iff(a: Seq<u8>, b: Seq<u8>)
    ensures
        (lex_cmp(a, b) == core::cmp::Ordering::Equal) == (a == b),
    decreases a.len(),
{
    if a.len() == 0 && b.len() == 0 {
        assert(a =~= b);
    } else if a.len() > 0 && b.len() > 0 && a[0] == b[0] {
        lemma_lex_cmp_equal_iff(a.drop_first(), b.drop_first());
        if a.drop_first() == b.drop_first() {
            assert(a =~= seq![a[0]] + a.drop_first());
            assert(b =~= seq![b[0]] + b.drop_first());
        }
    } else if a.len() > 0 && b.len() > 0 {
        assert(a[0] != b[0]);
    }
}

proof fn lemma_lex_cmp_skip(a: Seq<u8>, b: Seq<u8>, i: int)
    requires
        0 <= i <= a.len(),
        i <= b.len(),
        a.take(i) == b.take(i),
    ensures
        lex_cmp(a, b) == lex_cmp(a.skip(i), b.skip(i)),
    decreases i,
{
    if i > 0 {
        assert(a[0] == a.take(i)[0]);
        assert(b[0] == b.take(i)[0]);
        assert(a.drop_first().take(i - 1) =~= a.take(i).drop_first());
        assert(b.drop_first().take(i - 1) =~= b.take(i).drop_first());
        lemma_lex_cmp_skip(a.drop_first(), b.drop_first(), i - 1);
        assert(a.drop_first().skip(i - 1) =~= a.skip(i));
        assert(b.drop_first().skip(i - 1) =~= b.skip(i));
    } else {
        assert(a.skip(0) =~= a);
        assert(b.skip(0) =~= b);
    }
}

/// Lexicographic comparison of two byte slices.
pub fn compare_bytes(a: &[u8], b: &[u8]) -> (r: core::cmp::Ordering)
    ensures
        r == lex_cmp(a@, b@),
{
    let mut i: usize = 0;
    while i < a.len() && i < b.len()
        invariant
            i <= a@.len(),
            i <= b@.len(),
            a@.take(i as int) == b@.take(i as int),
        decreases a@.len() - i,
    {
        if a[i] != b[i] {
            proof {
                lemma_lex_cmp_skip(a@, b@, i as int);
                assert(a@.skip(i as int)[0] == a@[i as int]);
                assert(b@.skip(i as int)[0] == b@[i as int]);
            }
            if a[i] < b[i] {
                return core::cmp::Ordering::Less;
            } else {
                return core::cmp::Ordering::Greater;
            }
        }
        assert(a@.take(i + 1) =~= a@.take(i as int).push(a@[i as int]));
        assert(b@.take(i + 1) =~= b@.take(i as int).push(b@[i as int]));
        i = i + 1;
    }
    proof {
        lemma_lex_cmp_skip(a@, b@, i as int);
    }
    if i < a.len() {
        core::cmp::Ordering::Greater
    } else if i < b.len() {
        core::cmp::Ordering::Less
    } else {
        core::cmp::Ordering::Equal
    }
}

} // verus!
