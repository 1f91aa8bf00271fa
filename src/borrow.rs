//! The borrowed view of an interned value, the key type that maps keyed by
//! handles are queried with.
use vstd::prelude::*;
use crate::buffer::{buf_bytes, buffer_slice, compare_bytes, hash_address, is_buffer, lex_cmp, share_buffer};
use crate::interned::Interned;
use crate::pool::Pool;

verus! {

/// The text read from `b` as UTF-8, with each invalid sequence replaced by U+FFFD.
pub uninterp spec fn utf8_lossy(b: Seq<u8>) -> Seq<char>;

/// Relies on `String::from_utf8_lossy`: the text of `v`, invalid sequences replaced.
#[verifier::external_body]
fn lossy_text(v: &[u8]) -> (r: String)
    ensures
        r@ == utf8_lossy(v@),
{
    String::from_utf8_lossy(v).into_owned()
}

/// Relies on `<[u8] as Hash>::hash`: feeds the length and then the bytes of `v` to `state`.
#[verifier::external_body]
fn hash_slice_into<H: core::hash::Hasher>(v: &[u8], state: &mut H) {
    core::hash::Hash::hash(v, state)
}

/// Relies on `<u8 as Hash>::hash`: feeds the byte `b` to `state`.
#[verifier::external_body]
fn hash_byte_into<H: core::hash::Hasher>(b: u8, state: &mut H) {
    core::hash::Hash::hash(&b, state)
}

/// The borrowed form of an interned value, the key type for looking up maps
/// keyed by [`Interned`]. It is the inside of a handle: it holds the
/// handle's strong reference to the buffer, while the handle around it is
/// what releases that reference to the pool. Users only ever reach it by
/// reference through a live handle, so it cannot outlive one. It compares
/// and hashes by the address of the shared buffer, as the handle does, and
/// orders by bytes.
pub struct BorrowedInterned<'a> {
    pub(crate) buf: triomphe::Arc<[u8]>,
    pub(crate) pool: &'a Pool,
}

impl<'a> View for BorrowedInterned<'a> {
    type V = Seq<u8>;

    open spec fn view(&self) -> Seq<u8> {
        buf_bytes(self.buffer())
    }
}

impl<'a> BorrowedInterned<'a> {
    /// The shared buffer whose address identifies the value.
    pub closed spec fn buffer(&self) -> triomphe::Arc<[u8]> {
        self.buf
    }

    /// The view of `buf`, an entry of `pool` that the caller holds a strong
    /// reference to.
    pub(crate) fn from_entry(buf: triomphe::Arc<[u8]>, pool: &'a Pool) -> (r: BorrowedInterned<'a>)
        ensures
            r.buffer() == buf,
            r@ == buf_bytes(buf),
    {
        BorrowedInterned { buf, pool }
    }

    /// One more strong reference to the same entry.
    pub(crate) fn share(&self) -> (r: BorrowedInterned<'a>)
        ensures
            r.buffer() == self.buffer(),
            r@ == self@,
        no_unwind
    {
        BorrowedInterned { buf: share_buffer(&self.buf), pool: self.pool }
    }

    /// Tells the pool that this reference to the entry is about to go away.
    pub(crate) fn release(&self)
        opens_invariants none
        no_unwind
    {
        let _ = self.pool.remove_if_needed(&self.buf);
    }

    /// The bytes of the value.
    pub fn bytes(&self) -> (r: &[u8])
        ensures
            r@ == self@,
    {
        buffer_slice(&self.buf)
    }

    /// A new handle over the same pool entry. The entry is still in the pool,
    /// since the handle this view was reached through is alive, and the view
    /// already holds its buffer: the new handle shares it without a lookup.
    pub fn intern(&self) -> (r: Interned<'a>)
        ensures
            r.buffer() == self.buffer(),
            r@ == self@,
    {
        Interned::from_borrowed(self.share())
    }

    /// Feeds the bytes, followed by a single zero byte, to `state`; unlike
    /// `Hash`, which feeds the address.
    pub fn hash_data<H: core::hash::Hasher>(&self, state: &mut H) {
        hash_slice_into(self.bytes(), state);
        hash_byte_into(0u8, state);
    }

    /// The bytes read as UTF-8, with each invalid sequence replaced by U+FFFD.
    pub fn as_str(&self) -> (r: String)
        ensures
            r@ == utf8_lossy(self@),
    {
        lossy_text(self.bytes())
    }
}

impl<'a> PartialEq for BorrowedInterned<'a> {
    fn eq(&self, other: &Self) -> (r: bool) {
        is_buffer(&self.buf, &other.buf)
    }
}

impl<'a> vstd::std_specs::cmp::PartialEqSpecImpl for BorrowedInterned<'a> {
    open spec fn obeys_eq_spec() -> bool {
        true
    }

    open spec fn eq_spec(&self, other: &Self) -> bool {
        self.buffer() == other.buffer()
    }
}

impl<'a> Eq for BorrowedInterned<'a> {}

impl<'a> core::hash::Hash for BorrowedInterned<'a> {
    fn hash<H: core::hash::Hasher>(&self, state: &mut H) {
        hash_address(&self.buf, state)
    }
}

impl<'a> PartialOrd for BorrowedInterned<'a> {
    fn partial_cmp(&self, other: &Self) -> (r: Option<core::cmp::Ordering>) {
        Some(compare_bytes(self.bytes(), other.bytes()))
    }
}

impl<'a> vstd::std_specs::cmp::PartialOrdSpecImpl for BorrowedInterned<'a> {
    open spec fn obeys_partial_cmp_spec() -> bool {
        true
    }

    open spec fn partial_cmp_spec(&self, other: &Self) -> Option<core::cmp::Ordering> {
        Some(lex_cmp(self@, other@))
    }
}

impl<'a> Ord for BorrowedInterned<'a> {
    /// Relies on `triomphe::Arc`'s `Ord`, which compares the stored slices:
    /// byte-lexicographic, as `partial_cmp`.
    #[verifier::external_body]
    fn cmp(&self, other: &Self) -> (r: core::cmp::Ordering)
        ensures
            r == lex_cmp(self@, other@),
    {
        core::cmp::Ord::cmp(&self.buf, &other.buf)
    }
}

impl<'a> ToOwned for BorrowedInterned<'a> {
    type Owned = Interned<'a>;

    /// A new handle over the same entry, as `intern`.
    fn to_owned(&self) -> (r: Interned<'a>)
        ensures
            r.buffer() == self.buffer(),
            r@ == self@,
    {
        self.intern()
    }
}

impl<'a> core::ops::Deref for BorrowedInterned<'a> {
    type Target = [u8];

    fn deref(&self) -> (r: &[u8]) {
        self.bytes()
    }
}

} // verus!
