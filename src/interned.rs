//! Owned handles over pool entries.
use vstd::prelude::*;
use crate::borrow::BorrowedInterned;
use crate::buffer::buf_bytes;
use crate::pool::Pool;

verus! {

/// A strong reference to a pool entry. All live handles over equal bytes
/// share one buffer, so comparing and hashing go by the buffer's address;
/// ordering goes by the bytes. Dropping a handle lets the pool evict the
/// entry once no other handle holds it.
pub struct Interned<'a> {
    inner: BorrowedInterned<'a>,
}

impl<'a> View for Interned<'a> {
    type V = Seq<u8>;

    open spec fn view(&self) -> Seq<u8> {
        buf_bytes(self.buffer())
    }
}

impl<'a> Interned<'a> {
    /// The shared buffer whose address identifies the handle.
    pub closed spec fn buffer(&self) -> triomphe::Arc<[u8]> {
        self.inner.buffer()
    }

    /// The handle for `value` in `pool`: the pool's entry for these bytes,
    /// created if there is none.
    pub fn new(pool: &'a Pool, value: &[u8]) -> (r: Interned<'a>)
        ensures
            r@ == value@,
    {
        Interned::from_entry(pool.get_or_insert(value), pool)
    }

    /// The handle over the empty sequence that `pool` keeps for good.
    pub fn default_in(pool: &'a Pool) -> (r: Interned<'a>)
        ensures
            r@ == Seq::<u8>::empty(),
    {
        Interned::from_entry(pool.default_entry(), pool)
    }

    /// A handle over `buf`, an entry of `pool` that the caller holds a
    /// strong reference to.
    pub(crate) fn from_entry(buf: triomphe::Arc<[u8]>, pool: &'a Pool) -> (r: Interned<'a>)
        ensures
            r.buffer() == buf,
            r@ == buf_bytes(buf),
    {
        Interned { inner: BorrowedInterned::from_entry(buf, pool) }
    }

    /// The handle that owns the reference held by `inner`.
    pub(crate) fn from_borrowed(inner: BorrowedInterned<'a>) -> (r: Interned<'a>)
        ensures
            r.buffer() == inner.buffer(),
            r@ == inner@,
    {
        Interned { inner }
    }

    /// The borrowed view of this handle.
    pub fn as_borrowed(&self) -> (r: &BorrowedInterned<'a>)
        ensures
            r.buffer() == self.buffer(),
            r@ == self@,
    {
        &self.inner
    }

    /// The bytes of the value.
    pub fn bytes(&self) -> (r: &[u8])
        ensures
            r@ == self@,
    {
        self.inner.bytes()
    }

    /// Feeds the bytes, followed by a single zero byte, to `state`; unlike
    /// `Hash`, which feeds the address.
    pub fn hash_data<H: core::hash::Hasher>(&self, state: &mut H) {
        self.inner.hash_data(state)
    }

    /// The bytes read as UTF-8, with each invalid sequence replaced by U+FFFD.
    pub fn as_str(&self) -> (r: String)
        ensures
            r@ == crate::borrow::utf8_lossy(self@),
    {
        self.inner.as_str()
    }
}

/// Two handles that share a buffer hold the same bytes, so the order by
/// bytes ranks them `Equal`: equality by address never contradicts ordering.
pub proof fn lemma_same_buffer_same_bytes(a: &Interned, b: &Interned)
    requires
        a.buffer() == b.buffer(),
    ensures
        a@ == b@,
        crate::buffer::lex_cmp(a@, b@) == core::cmp::Ordering::Equal,
{
    crate::buffer::lemma_lex_cmp_equal_iff(a@, b@);
}

/// Handles that the order by bytes ranks `Equal` hold the same bytes.
pub proof fn lemma_order_equal_same_bytes(a: &Interned, b: &Interned)
    requires
        crate::buffer::lex_cmp(a@, b@) == core::cmp::Ordering::Equal,
    ensures
        a@ == b@,
{
    crate::buffer::lemma_lex_cmp_equal_iff(a@, b@);
}

impl<'a> Clone for Interned<'a> {
    /// A second handle over the same buffer: same address, same bytes, and
    /// the pool is not touched.
    fn clone(&self) -> (r: Self)
        ensures
            r.buffer() == self.buffer(),
            r@ == self@,
    {
        Interned { inner: self.inner.share() }
    }
}

impl<'a> Drop for Interned<'a> {
    fn drop(&mut self)
        opens_invariants none
        no_unwind
    {
        self.inner.release();
    }
}

impl<'a> PartialEq for Interned<'a> {
    fn eq(&self, other: &Self) -> (r: bool) {
        self.inner.eq(&other.inner)
    }
}

impl<'a> vstd::std_specs::cmp::PartialEqSpecImpl for Interned<'a> {
    open spec fn obeys_eq_spec() -> bool {
        true
    }

    open spec fn eq_spec(&self, other: &Self) -> bool {
        self.buffer() == other.buffer()
    }
}

impl<'a> Eq for Interned<'a> {}

impl<'a> core::hash::Hash for Interned<'a> {
    fn hash<H: core::hash::Hasher>(&self, state: &mut H) {
        self.inner.hash(state)
    }
}

impl<'a> PartialOrd for Interned<'a> {
    fn partial_cmp(&self, other: &Self) -> (r: Option<core::cmp::Ordering>) {
        self.inner.partial_cmp(&other.inner)
    }
}

impl<'a> vstd::std_specs::cmp::PartialOrdSpecImpl for Interned<'a> {
    open spec fn obeys_partial_cmp_spec() -> bool {
        true
    }

    open spec fn partial_cmp_spec(&self, other: &Self) -> Option<core::cmp::Ordering> {
        Some(crate::buffer::lex_cmp(self@, other@))
    }
}

impl<'a> Ord for Interned<'a> {
    /// Relies on `triomphe::Arc`'s `Ord`, which compares the stored slices:
    /// byte-lexicographic, as `partial_cmp`.
    #[verifier::external_body]
    fn cmp(&self, other: &Self) -> (r: core::cmp::Ordering)
        ensures
            r == crate::buffer::lex_cmp(self@, other@),
    {
        core::cmp::Ord::cmp(&self.inner.buf, &other.inner.buf)
    }
}

impl<'a> core::borrow::Borrow<BorrowedInterned<'a>> for Interned<'a> {
    fn borrow(&self) -> &BorrowedInterned<'a> {
        &self.inner
    }
}

impl<'a> AsRef<BorrowedInterned<'a>> for Interned<'a> {
    fn as_ref(&self) -> (r: &BorrowedInterned<'a>)
        ensures
            r.buffer() == self.buffer(),
            r@ == self@,
    {
        &self.inner
    }
}

impl<'a> core::ops::Deref for Interned<'a> {
    type Target = BorrowedInterned<'a>;

    fn deref(&self) -> (r: &BorrowedInterned<'a>)
        ensures
            r.buffer() == self.buffer(),
            r@ == self@,
    {
        &self.inner
    }
}

} // verus!
