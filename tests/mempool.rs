use mempool::mempool::Mempool;

#[test]
fn gets_max() {
    let mut pool: Mempool<u64, ()> = Mempool::new_with_capacity(10);
    pool.insert(1, ());
    pool.insert(2, ());
    pool.insert(4, ());
    pool.insert(8, ());

    assert_eq!(pool.max_key(), Some(&8));
}

#[test]
fn gets_min() {
    let mut pool: Mempool<u64, ()> = Mempool::new_with_capacity(10);
    pool.insert(1, ());
    pool.insert(2, ());
    pool.insert(4, ());
    pool.insert(8, ());

    assert_eq!(pool.min_key(), Some(&1));
}

#[test]
fn drops_smallest_at_max() {
    let pool_size = 6;

    let mut pool: Mempool<u64, ()> = Mempool::new_with_capacity(pool_size);
    pool.insert(1, ());
    pool.insert(2, ());
    pool.insert(4, ());
    pool.insert(8, ());
    pool.insert(16, ());
    pool.insert(32, ());

    assert_eq!(pool.min_key(), Some(&1));

    pool.insert(64, ());

    assert_eq!(pool.min_key(), Some(&2));
    assert_eq!(pool.len(), pool_size);

    for x in 0..100 {
        pool.insert(x, ());
        assert_eq!(pool.len(), pool_size);
    }
}

#[test]
fn full_pool_reports_bounds() {
    let mut pool: Mempool<u64, ()> = Mempool::new_with_capacity(6);
    for k in [1u64, 2, 4, 8, 16, 32] {
        assert_eq!(pool.insert(k, ()), None);
    }
    assert_eq!(pool.len(), 6);
    assert_eq!(pool.min_key(), Some(&1));
    assert_eq!(pool.max_key(), Some(&32));
}

#[test]
fn insert_past_bound_evicts_minimum() {
    let mut pool: Mempool<u64, ()> = Mempool::new_with_capacity(6);
    for k in [1u64, 2, 4, 8, 16, 32] {
        pool.insert(k, ());
    }
    assert_eq!(pool.insert(64, ()), None);
    assert_eq!(pool.min_key(), Some(&2));
    assert_eq!(pool.max_key(), Some(&64));
    assert_eq!(pool.len(), 6);
    assert!(!pool.data().contains_key(&1));
    assert!(pool.data().contains_key(&64));
}

#[test]
fn zero_capacity_keeps_nothing() {
    let mut pool: Mempool<u64, u8> = Mempool::new_with_capacity(0);
    assert_eq!(pool.insert(5, 1), None);
    assert_eq!(pool.len(), 0);
    assert_eq!(pool.insert(5, 2), None);
    assert_eq!(pool.insert(9, 3), None);
    assert_eq!(pool.len(), 0);
    assert_eq!(pool.min_key(), None);
    assert_eq!(pool.max_value(), None);
}

#[test]
fn overwrite_returns_previous_value() {
    let mut pool: Mempool<u64, &str> = Mempool::new();
    assert_eq!(pool.insert(3, "first"), None);
    assert_eq!(pool.insert(3, "second"), Some("first"));
    assert_eq!(pool.len(), 1);
    assert_eq!(pool.max_value(), Some(&"second"));
    assert_eq!(pool.min_value(), Some(&"second"));
}

#[test]
fn overwrite_at_capacity_does_not_evict() {
    let mut pool: Mempool<u64, u8> = Mempool::new_with_capacity(2);
    pool.insert(1, 10);
    pool.insert(2, 20);
    assert_eq!(pool.insert(1, 11), Some(10));
    assert_eq!(pool.len(), 2);
    assert_eq!(pool.min_value(), Some(&11));
    assert_eq!(pool.max_value(), Some(&20));
}

#[test]
fn smaller_key_at_capacity_replaces_minimum() {
    let mut pool: Mempool<u64, ()> = Mempool::new_with_capacity(3);
    for k in [10u64, 20, 30] {
        pool.insert(k, ());
    }
    pool.insert(5, ());
    let keys: Vec<u64> = pool.data().keys().copied().collect();
    assert_eq!(keys, vec![5, 20, 30]);
}

#[test]
fn increasing_keys_keep_largest() {
    let mut pool: Mempool<u64, u64> = Mempool::new_with_capacity(4);
    for k in 0..10u64 {
        pool.insert(k, k * 10);
        assert!(pool.len() <= 4);
    }
    let keys: Vec<u64> = pool.data().keys().copied().collect();
    assert_eq!(keys, vec![6, 7, 8, 9]);
    assert_eq!(pool.min_value(), Some(&60));
    assert_eq!(pool.max_value(), Some(&90));
}

#[test]
fn pop_takes_smallest() {
    let mut pool: Mempool<u64, char> = Mempool::new();
    assert_eq!(pool.pop(), None);
    pool.insert(7, 'b');
    pool.insert(3, 'a');
    pool.insert(9, 'c');
    assert_eq!(pool.pop(), Some('a'));
    assert_eq!(pool.len(), 2);
    assert_eq!(pool.min_key(), Some(&7));
    assert_eq!(pool.pop(), Some('b'));
    assert_eq!(pool.pop(), Some('c'));
    assert_eq!(pool.pop(), None);
    assert_eq!(pool.len(), 0);
}

#[test]
fn empty_pool_has_no_extremes() {
    let pool: Mempool<u64, ()> = Mempool::new();
    assert_eq!(pool.len(), 0);
    assert_eq!(pool.max_key(), None);
    assert_eq!(pool.min_key(), None);
    assert_eq!(pool.max_value(), None);
    assert_eq!(pool.min_value(), None);
}

#[test]
fn composite_keys_break_ties() {
    let mut pool: Mempool<(u64, u64), &str> = Mempool::new_with_capacity(2);
    pool.insert((5, 2), "b");
    pool.insert((5, 1), "a");
    pool.insert((6, 0), "c");
    assert_eq!(pool.len(), 2);
    assert_eq!(pool.min_key(), Some(&(5, 2)));
    assert_eq!(pool.max_key(), Some(&(6, 0)));
    let desc: Vec<&str> = pool.data().values().rev().copied().collect();
    assert_eq!(desc, vec!["c", "b"]);
}
