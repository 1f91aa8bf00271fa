use std::collections::{BTreeMap, HashMap};
use std::hash::{BuildHasher, Hasher};

use intern_mint::pool::{self, Pool};
use intern_mint::{BorrowedInterned, Interned};

fn verify_empty(pool: &Pool) {
    // once the default handle has been asked for, its entry stays in the pool
    let _a = Interned::default_in(pool);
    assert!(pool::len(pool) == 1);
}

#[test]
fn same_data_same_ptr() {
    let pool = Pool::new(4);
    {
        let a = Interned::new(&pool, b"hello");
        let b = Interned::new(&pool, b"hello");

        assert_eq!(a.as_ptr(), b.as_ptr());
        assert!(a == b);
    }
    verify_empty(&pool);
}

#[test]
fn different_data_different_ptr() {
    let pool = Pool::new(4);
    {
        let a = Interned::new(&pool, b"hello");
        let b = Interned::new(&pool, b"bye");
        let c = Interned::new(&pool, b"why");
        let d = Interned::new(&pool, b"just");
        let e = Interned::new(&pool, b"because");

        assert_ne!(a.as_ptr(), b.as_ptr());
        assert_ne!(b.as_ptr(), c.as_ptr());
        assert_ne!(c.as_ptr(), d.as_ptr());
        assert_ne!(d.as_ptr(), e.as_ptr());

        assert!(a != b);
        assert!(b != c);
        assert!(c != d);
        assert!(d != e);
    }
    verify_empty(&pool);
}

#[test]
fn cloned_data_same_ptr() {
    let pool = Pool::new(4);
    {
        let a = Interned::new(&pool, b"hello");
        let b = a.clone();
        let c = a.clone();
        let d = a.clone();
        let e = a.clone();

        assert_eq!(a.as_ptr(), b.as_ptr());
        assert_eq!(b.as_ptr(), c.as_ptr());
        assert_eq!(c.as_ptr(), d.as_ptr());
        assert_eq!(d.as_ptr(), e.as_ptr());

        assert!(a == b);
        assert!(b == c);
        assert!(c == d);
        assert!(d == e);
    }
    verify_empty(&pool);
}

#[test]
fn same_data_many_handles_same_ptr() {
    const LEN: usize = 1024;
    let pool = Pool::new(4);
    {
        let mut arcs = Vec::<Interned>::new();
        for _ in 0..LEN {
            arcs.push(Interned::new(&pool, b"hello"));
        }
        assert_eq!(arcs.len(), LEN);
        assert!(arcs.iter().skip(1).all(|o| arcs[0].as_ptr() == o.as_ptr()));
        assert_eq!(pool::len(&pool), 1);
    }
    verify_empty(&pool);
}

#[test]
fn repeated_intern_and_drop() {
    const LEN: usize = 1024;
    let pool = Pool::new(4);
    for _ in 0..LEN {
        let arced = Interned::new(&pool, b"hello");
        drop(arced)
    }
    verify_empty(&pool);
}

#[test]
fn map_usage_with_borrow() {
    let pool = Pool::new(4);
    {
        let map = HashMap::<Interned, u64>::from_iter([(Interned::new(&pool, b"key"), 1)]);

        let key = Interned::new(&pool, b"key");
        assert_eq!(map.get(&key), Some(&1));

        let borrowed_key: &BorrowedInterned = &key;
        assert_eq!(map.get(borrowed_key), Some(&1));

        let unknown_key = Interned::new(&pool, b"unknown_key");
        assert_eq!(map.get(&unknown_key), None);

        let borrowed_unknown_key: &BorrowedInterned = unknown_key.as_ref();
        assert_eq!(map.get(borrowed_unknown_key), None);
    }
    verify_empty(&pool);
}

#[test]
fn btree_usage_with_borrow() {
    let pool = Pool::new(4);
    {
        let map = BTreeMap::<Interned, u64>::from_iter([(Interned::new(&pool, b"key"), 1)]);

        let key = Interned::new(&pool, b"key");
        assert_eq!(map.get(&key), Some(&1));

        let borrowed_key: &BorrowedInterned = key.as_ref();
        assert_eq!(map.get(borrowed_key), Some(&1));

        let unknown_key = Interned::new(&pool, b"unknown_key");
        assert_eq!(map.get(&unknown_key), None);

        let borrowed_unknown_key: &BorrowedInterned = unknown_key.as_ref();
        assert_eq!(map.get(borrowed_unknown_key), None);
    }
    verify_empty(&pool);
}

#[test]
fn re_intern_borrow_same_ptr() {
    let pool = Pool::new(4);
    {
        let interned = Interned::new(&pool, b"hello!");
        let borrowed: &BorrowedInterned = interned.as_ref();
        let interned_from_borrow = borrowed.intern();
        assert_eq!(interned.as_ptr(), interned_from_borrow.as_ptr());
    }
    verify_empty(&pool);
}

#[test]
fn validate_data_hash() {
    let pool = Pool::new(4);
    let hash_builder = ahash::RandomState::new();

    let hash_data = |data: &Interned| {
        let mut hasher = hash_builder.build_hasher();
        data.hash_data(&mut hasher);
        hasher.finish()
    };

    let (ptr_hash_1, data_hash_1) = {
        let interned = Interned::new(&pool, b"hello!");
        (hash_builder.hash_one(&interned), hash_data(&interned))
    };
    verify_empty(&pool);

    let (ptr_hash_2, data_hash_2) = {
        let _a = Interned::new(&pool, b"a");
        let _a = Interned::new(&pool, b"bit");
        let _a = Interned::new(&pool, b"more");
        let _a = Interned::new(&pool, b"allocations");
        let _a = Interned::new(&pool, b"so");
        let _a = Interned::new(&pool, b"we");
        let _a = Interned::new(&pool, b"won't");
        let _a = Interned::new(&pool, b"use");
        let _a = Interned::new(&pool, b"the");
        let _a = Interned::new(&pool, b"same");
        let _a = Interned::new(&pool, b"address");

        let interned = Interned::new(&pool, b"hello!");
        (hash_builder.hash_one(&interned), hash_data(&interned))
    };
    verify_empty(&pool);

    assert_ne!(ptr_hash_1, data_hash_1);
    assert_ne!(ptr_hash_1, ptr_hash_2);

    assert_ne!(ptr_hash_2, data_hash_2);
    assert_eq!(data_hash_1, data_hash_2);
}
