use std::cmp::Ordering;
use std::hash::{BuildHasher, Hasher};

use intern_mint::buffer::{bytes_equal, compare_bytes, holds_bytes, is_buffer};
use intern_mint::pool::{self, capped_total, evict_found, evict_on, Pool};
use intern_mint::shard::{shard_index, shard_layout};
use intern_mint::{BorrowedInterned, Interned};

#[test]
fn fresh_pool_is_empty() {
    let pool = Pool::new(8);
    assert!(pool::is_empty(&pool));
    assert_eq!(pool::len(&pool), 0);
}

#[test]
fn eviction_returns_to_baseline() {
    let pool = Pool::new(2);
    {
        let a = Interned::new(&pool, b"tmp");
        assert_eq!(a.bytes(), b"tmp");
        assert_eq!(pool::len(&pool), 1);
    }
    assert_eq!(pool::len(&pool), 0);
    assert!(pool::is_empty(&pool));
}

#[test]
fn drop_of_last_handle_removes_one_entry() {
    let pool = Pool::new(2);
    let keep = Interned::new(&pool, b"keep");
    let x = Interned::new(&pool, b"x");
    let x2 = x.clone();
    let x3 = x2.clone();
    assert_eq!(pool::len(&pool), 2);
    drop(x);
    drop(x2);
    assert_eq!(pool::len(&pool), 2);
    drop(x3);
    assert_eq!(pool::len(&pool), 1);
    assert_eq!(keep.bytes(), b"keep");
}

#[test]
fn identity_follows_bytes() {
    let pool = Pool::new(1);
    let a = Interned::new(&pool, b"x");
    let b = Interned::new(&pool, b"y");
    let c = Interned::new(&pool, b"x");
    assert!(a == c);
    assert!(a != b);
    assert_eq!(a.as_ptr(), c.as_ptr());
    assert_ne!(a.as_ptr(), b.as_ptr());
}

#[test]
fn re_interned_after_eviction_is_new_entry() {
    let pool = Pool::new(1);
    let _pad = Interned::new(&pool, b"pad");
    let first = Interned::new(&pool, b"again");
    let first_bytes = first.bytes().to_vec();
    drop(first);
    assert_eq!(pool::len(&pool), 1);
    let second = Interned::new(&pool, b"again");
    assert_eq!(second.bytes(), first_bytes.as_slice());
    assert_eq!(pool::len(&pool), 2);
}

#[test]
fn empty_sequence_and_default_handle() {
    let pool = Pool::new(4);
    let e = Interned::new(&pool, b"");
    assert_eq!(e.bytes().len(), 0);
    let d = Interned::default_in(&pool);
    assert_eq!(d.bytes().len(), 0);
    assert!(d == e);
    assert_eq!(pool::len(&pool), 1);
    drop(e);
    drop(d);
    assert_eq!(pool::len(&pool), 1);
    let d2 = Interned::default_in(&pool);
    assert_eq!(d2.bytes(), b"");
}

#[test]
fn handles_order_by_bytes() {
    let pool = Pool::new(4);
    let abc = Interned::new(&pool, b"abc");
    let abd = Interned::new(&pool, b"abd");
    let ab = Interned::new(&pool, b"ab");
    let abc2 = Interned::new(&pool, b"abc");
    assert!(abc < abd);
    assert!(ab < abc);
    assert_eq!(abc.cmp(&abc2), Ordering::Equal);
    assert_eq!(abd.cmp(&ab), Ordering::Greater);
    assert_eq!(abc.partial_cmp(&abd), Some(Ordering::Less));
    let borrowed_abd: &BorrowedInterned = abd.as_ref();
    let borrowed_ab: &BorrowedInterned = ab.as_ref();
    assert_eq!(borrowed_ab.cmp(borrowed_abd), Ordering::Less);
    assert_eq!(borrowed_abd.partial_cmp(borrowed_ab), Some(Ordering::Greater));
}

#[test]
fn lossy_text() {
    let pool = Pool::new(4);
    let a = Interned::new(&pool, b"hello");
    assert_eq!(a.as_str(), "hello");
    let bad = Interned::new(&pool, b"a\xffb");
    assert_eq!(bad.as_str(), "a\u{FFFD}b");
    let borrowed: &BorrowedInterned = bad.as_ref();
    assert_eq!(borrowed.as_str(), "a\u{FFFD}b");
}

#[test]
fn data_hash_of_borrow_matches_handle() {
    let pool = Pool::new(4);
    let hash_builder = ahash::RandomState::new();
    let a = Interned::new(&pool, b"content");
    let mut h1 = hash_builder.build_hasher();
    a.hash_data(&mut h1);
    let borrowed: &BorrowedInterned = a.as_ref();
    let mut h2 = hash_builder.build_hasher();
    borrowed.hash_data(&mut h2);
    assert_eq!(h1.finish(), h2.finish());
    assert_eq!(hash_builder.hash_one(&a), hash_builder.hash_one(borrowed));
    let mut h3 = hash_builder.build_hasher();
    h3.write(b"content");
    assert_ne!(h1.finish(), h3.finish());
}

#[test]
fn drop_keeps_entry_while_another_handle_holds_it() {
    let pool = Pool::new(4);
    let a = Interned::new(&pool, b"k");
    let b = a.as_borrowed().intern();
    drop(a);
    assert_eq!(pool::len(&pool), 1);
    let c = Interned::new(&pool, b"k");
    assert_eq!(b.as_ptr(), c.as_ptr());
    drop(b);
    assert_eq!(pool::len(&pool), 1);
    drop(c);
    assert_eq!(pool::len(&pool), 0);
}

#[test]
fn buffer_predicates() {
    let a = triomphe::Arc::<[u8]>::from(&b"same"[..]);
    let b = a.clone();
    let c = triomphe::Arc::<[u8]>::from(&b"same"[..]);
    assert!(is_buffer(&a, &b));
    assert!(!is_buffer(&a, &c));
    assert!(holds_bytes(&a, b"same"));
    assert!(!holds_bytes(&a, b"sam"));
}

#[test]
fn eviction_decision_under_lock() {
    assert!(evict_found(Some(2)));
    assert!(evict_found(Some(1)));
    assert!(!evict_found(Some(3)));
    assert!(!evict_found(None));
}

#[test]
fn capped_totals() {
    assert_eq!(capped_total(&vec![]), 0);
    assert_eq!(capped_total(&vec![1, 2, 3]), 6);
    assert_eq!(capped_total(&vec![usize::MAX, 1]), usize::MAX);
    assert_eq!(capped_total(&vec![usize::MAX - 1, 1, 0]), usize::MAX);
}

#[test]
fn eviction_threshold() {
    assert!(evict_on(1));
    assert!(evict_on(2));
    assert!(!evict_on(3));
}

#[test]
fn shard_layouts() {
    assert_eq!(shard_layout(0), (4, 2));
    assert_eq!(shard_layout(1), (4, 2));
    assert_eq!(shard_layout(2), (8, 3));
    assert_eq!(shard_layout(3), (16, 4));
    assert_eq!(shard_layout(5), (32, 5));
    assert_eq!(shard_layout(16), (64, 6));
}

#[test]
fn shard_indices() {
    assert_eq!(shard_index(0, 2), 0);
    assert_eq!(shard_index(u64::MAX, 2), 3);
    assert_eq!(shard_index(1u64 << 56, 2), 2);
    assert_eq!(shard_index(1u64 << 57, 2), 0);
    assert_eq!(shard_index(1u64 << 55, 2), 1);
    assert_eq!(shard_index(0b1011u64 << 53, 4), 0b1011);
}

#[test]
fn byte_comparisons() {
    assert!(bytes_equal(b"", b""));
    assert!(bytes_equal(b"abc", b"abc"));
    assert!(!bytes_equal(b"abc", b"abd"));
    assert!(!bytes_equal(b"ab", b"abc"));
    assert_eq!(compare_bytes(b"", b""), Ordering::Equal);
    assert_eq!(compare_bytes(b"", b"a"), Ordering::Less);
    assert_eq!(compare_bytes(b"b", b"abc"), Ordering::Greater);
    assert_eq!(compare_bytes(b"abc", b"abc"), Ordering::Equal);
    assert_eq!(compare_bytes(b"ab\xff", b"ab\x00"), Ordering::Greater);
}

#[test]
fn to_owned_shares_buffer_and_len_counts_entries() {
    let pool = Pool::new(4);
    let a = Interned::new(&pool, b"owned");
    let borrowed: &BorrowedInterned = a.as_ref();
    let b = borrowed.to_owned();
    assert_eq!(a.as_ptr(), b.as_ptr());
    assert_eq!(pool::observed_len(&pool).0, 1);
    let _c = Interned::new(&pool, b"second");
    assert_eq!(pool::len(&pool), 2);
    assert!(!pool::is_empty(&pool));
}
