use shardbench::store::{shard_index, ShardedStore};

#[test]
fn initialization_covers_key_space_with_zero() {
    let store = ShardedStore::new(10, 3);
    assert_eq!(store.num_shards(), 3);
    for k in 0..10 {
        assert_eq!(store.read(k), Some(0));
    }
    assert_eq!(store.read(10), None);
    assert_eq!(store.read(usize::MAX), None);
}

#[test]
fn single_shard_store() {
    let store = ShardedStore::new(5, 1);
    assert_eq!(store.num_shards(), 1);
    for k in 0..5 {
        assert_eq!(store.read(k), Some(0));
    }
}

#[test]
fn more_shards_than_keys() {
    let store = ShardedStore::new(2, 64);
    assert_eq!(store.num_shards(), 64);
    assert_eq!(store.read(0), Some(0));
    assert_eq!(store.read(1), Some(0));
    assert_eq!(store.read(2), None);
}

#[test]
fn empty_key_space() {
    let store = ShardedStore::new(0, 4);
    assert_eq!(store.read(0), None);
}

#[test]
fn increment_counts_and_leaves_others_alone() {
    let mut store = ShardedStore::new(8, 4);
    store.increment(5);
    store.increment(5);
    store.increment(1);
    assert_eq!(store.read(5), Some(2));
    assert_eq!(store.read(1), Some(1));
    for k in [0, 2, 3, 4, 6, 7] {
        assert_eq!(store.read(k), Some(0));
    }
}

#[test]
fn increment_inserts_absent_key() {
    let mut store = ShardedStore::new(2, 2);
    store.increment(9);
    assert_eq!(store.read(9), Some(1));
}

#[test]
fn shard_index_is_key_mod_shard_count() {
    for k in 0..100usize {
        assert_eq!(shard_index(k, 7), k % 7);
        assert_eq!(shard_index(k, 1), 0);
    }
    assert_eq!(shard_index(64, 64), 0);
    assert_eq!(shard_index(65, 64), 1);
}
