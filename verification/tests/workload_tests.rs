use shardbench::rng::splitmix64;
use shardbench::store::ShardedStore;
use shardbench::workload::{
    decide_read, effective_iterations, per_worker_iterations, plan_op, route_key, run_worker,
    run_workload, worker_seed,
};

/// Reference computation of one draw, written out independently.
fn reference_draw(state: &mut u64) -> u64 {
    *state = state.wrapping_add(0x9E3779B97F4A7C15);
    let mut z = *state;
    z = (z ^ (z >> 30)).wrapping_mul(0xBF58476D1CE4E5B9);
    z = (z ^ (z >> 27)).wrapping_mul(0x94D049BB133111EB);
    z ^ (z >> 31)
}

/// Replay one worker's sequence independently, counting writes per key.
fn reference_write_counts(seed: u64, ops: usize, keys: usize, read_millis: u64) -> Vec<i64> {
    let mut counts = vec![0i64; keys];
    let mut state = seed;
    for _ in 0..ops {
        let k = (reference_draw(&mut state) % keys as u64) as usize;
        let r = reference_draw(&mut state) % 1000;
        if r >= read_millis {
            counts[k] += 1;
        }
    }
    counts
}

#[test]
fn effective_iterations_truncates() {
    assert_eq!(per_worker_iterations(10, 3), 3);
    assert_eq!(effective_iterations(10, 3), 9);
    assert_eq!(effective_iterations(2_000_000, 8), 2_000_000);
    assert_eq!(effective_iterations(7, 8), 0);
    assert_eq!(effective_iterations(0, 5), 0);
}

#[test]
fn read_write_boundary_at_scaled_ratio() {
    // A ratio of 0.5 scales to 500: 499 selects a read, 500 a write.
    assert!(decide_read(499, 500));
    assert!(!decide_read(500, 500));
    assert!(decide_read(1499, 500));
    assert!(!decide_read(1500, 500));
    // Degenerate ratios.
    assert!(!decide_read(0, 0));
    assert!(decide_read(999, 1000));
}

#[test]
fn route_key_is_value_mod_keys() {
    assert_eq!(route_key(7, 3), 1);
    assert_eq!(route_key(0, 5), 0);
    assert_eq!(route_key(u64::MAX, 2), 1);
}

#[test]
fn plan_op_draws_key_then_decision() {
    let mut rng = splitmix64(42);
    let mut state = 42u64;
    for _ in 0..20 {
        let (key, is_read) = plan_op(&mut rng, 100, 900);
        let expect_key = (reference_draw(&mut state) % 100) as usize;
        let expect_read = reference_draw(&mut state) % 1000 < 900;
        assert_eq!(key, expect_key);
        assert_eq!(is_read, expect_read);
    }
}

#[test]
fn worker_seed_offsets_base() {
    assert_eq!(worker_seed(42, 0), 42);
    assert_eq!(worker_seed(42, 7), 49);
}

#[test]
fn single_worker_replay_counts_writes() {
    let seed = 7u64;
    let ops = 200usize;
    let keys = 10usize;
    let read_millis = 500u64;
    let mut store = ShardedStore::new(keys, 3);
    run_worker(&mut store, seed, ops, keys, read_millis);
    let expected = reference_write_counts(seed, ops, keys, read_millis);
    for k in 0..keys {
        assert_eq!(store.read(k), Some(expected[k]));
    }
    assert_eq!(store.read(keys), None);
}

#[test]
fn run_workload_matches_independent_replay() {
    let threads = 3usize;
    let iterations = 100usize;
    let keys = 17usize;
    let read_millis = 700u64;
    let seed = 42u64;
    let shards = 4usize;
    let (store, effective) = run_workload(threads, iterations, keys, read_millis, seed, shards);
    assert_eq!(effective, 99);
    assert_eq!(store.num_shards(), 4);
    let per = iterations / threads;
    let mut expected = vec![0i64; keys];
    for t in 0..threads {
        let counts = reference_write_counts(seed + t as u64, per, keys, read_millis);
        for k in 0..keys {
            expected[k] += counts[k];
        }
    }
    for k in 0..keys {
        assert_eq!(store.read(k), Some(expected[k]));
    }
}

#[test]
fn replay_is_deterministic_across_runs() {
    let (a, ea) = run_workload(2, 50, 9, 300, 5, 2);
    let (b, eb) = run_workload(2, 50, 9, 300, 5, 2);
    assert_eq!(ea, eb);
    for k in 0..9 {
        assert_eq!(a.read(k), b.read(k));
    }
}

#[test]
fn all_reads_leave_store_untouched() {
    let keys = 6usize;
    let mut store = ShardedStore::new(keys, 2);
    // A scaled ratio of 1000 makes every operation a read.
    run_worker(&mut store, 11, 500, keys, 1000);
    for k in 0..keys {
        assert_eq!(store.read(k), Some(0));
    }
}

#[test]
fn all_writes_sum_to_operation_count() {
    let keys = 6usize;
    let ops = 500usize;
    let mut store = ShardedStore::new(keys, 2);
    // A scaled ratio of 0 makes every operation a write.
    run_worker(&mut store, 11, ops, keys, 0);
    let mut total = 0i64;
    for k in 0..keys {
        total += store.read(k).unwrap();
    }
    assert_eq!(total, ops as i64);
}
