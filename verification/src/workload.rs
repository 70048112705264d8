//! Workload planning and replay: each worker draws two values per
//! operation from its own random source — the first picks the key, the
//! second picks read versus write against a thousandth-scaled read
//! ratio — and performs a fixed number of such operations. The number
//! of operations per worker is the requested total divided by the
//! worker count, truncating.

use crate::rng::{spec_advance, spec_draw, spec_state_after, splitmix64, SplitMix64};
use crate::store::ShardedStore;
use vstd::arithmetic::div_mod::lemma_fundamental_div_mod;
use vstd::arithmetic::mul::lemma_mul_inequality;
use vstd::prelude::*;

verus! {

/// The read ratio is discretized to this many points.
pub const READ_RATIO_SCALE: u64 = 1000;

/// Key chosen by the `i`-th operation of a worker seeded with `seed`:
/// the first draw of the pair, reduced modulo the key-space size.
pub open spec fn spec_key_at(seed: u64, i: nat, keys: usize) -> usize {
    (spec_draw(seed, 2 * i) % (keys as u64)) as usize
}

/// Whether the `i`-th operation of a worker seeded with `seed` is a
/// read: the second draw of the pair, modulo 1000, lies below the
/// scaled read ratio.
pub open spec fn spec_is_read_at(seed: u64, i: nat, read_millis: u64) -> bool {
    spec_draw(seed, 2 * i + 1) % READ_RATIO_SCALE < read_millis
}

/// How many of the first `ops` operations of a worker seeded with
/// `seed` write to key `k`.
pub open spec fn spec_write_count(
    seed: u64,
    ops: nat,
    keys: usize,
    read_millis: u64,
    k: usize,
) -> nat
    decreases ops,
{
    if ops == 0 {
        0
    } else {
        spec_write_count(seed, (ops - 1) as nat, keys, read_millis, k) + (
        if !spec_is_read_at(seed, (ops - 1) as nat, read_millis) && spec_key_at(
            seed,
            (ops - 1) as nat,
            keys,
        ) == k {
            1nat
        } else {
            0nat
        })
    }
}

/// A worker cannot write to one key more often than it operates.
pub proof fn lemma_write_count_le(seed: u64, ops: nat, keys: usize, read_millis: u64, k: usize)
    ensures
        spec_write_count(seed, ops, keys, read_millis, k) <= ops,
    decreases ops,
{
    if ops > 0 {
        lemma_write_count_le(seed, (ops - 1) as nat, keys, read_millis, k);
    }
}

/// Workers only ever write to keys inside the key space.
pub proof fn lemma_write_count_key_in_range(
    seed: u64,
    ops: nat,
    keys: usize,
    read_millis: u64,
    k: usize,
)
    requires
        keys >= 1,
        k >= keys,
    ensures
        spec_write_count(seed, ops, keys, read_millis, k) == 0,
    decreases ops,
{
    if ops > 0 {
        lemma_write_count_key_in_range(seed, (ops - 1) as nat, keys, read_millis, k);
        assert(spec_key_at(seed, (ops - 1) as nat, keys) < keys);
    }
}

/// Decide read versus write from a drawn value: a read exactly when the
/// value modulo 1000 lies below the scaled read ratio.
pub fn decide_read(v: u64, read_millis: u64) -> (r: bool)
    ensures
        r == (v % READ_RATIO_SCALE < read_millis),
{
    v % READ_RATIO_SCALE < read_millis
}

/// Reduce a drawn value to a key of the key space.
pub fn route_key(v: u64, keys: usize) -> (k: usize)
    requires
        keys >= 1,
    ensures
        k == v % (keys as u64),
        k < keys,
{
    (v % (keys as u64)) as usize
}

/// Plan one operation: draw the key, then draw the read/write decision.
pub fn plan_op(rng: &mut SplitMix64, keys: usize, read_millis: u64) -> (op: (usize, bool))
    requires
        keys >= 1,
    ensures
        final(rng)@ == spec_state_after(old(rng)@, 2),
        op.0 == spec_key_at(old(rng)@, 0, keys),
        op.1 == spec_is_read_at(old(rng)@, 0, read_millis),
        op.0 < keys,
{
    proof {
        reveal_with_fuel(spec_state_after, 3);
    }
    let v1 = rng.next();
    let key = route_key(v1, keys);
    let v2 = rng.next();
    let is_read = decide_read(v2, read_millis);
    (key, is_read)
}

/// The seed handed to worker `t`: the base seed plus the worker index.
pub fn worker_seed(base_seed: u64, t: usize) -> (r: u64)
    requires
        base_seed + t <= u64::MAX,
    ensures
        r == base_seed + t,
{
    base_seed + (t as u64)
}

/// Operations each worker performs: the requested total divided by the
/// worker count, truncating; the remainder is dropped.
pub fn per_worker_iterations(iterations: usize, thread_count: usize) -> (r: usize)
    requires
        thread_count >= 1,
    ensures
        r == iterations as int / thread_count as int,
{
    iterations / thread_count
}

/// The total operation count actually performed: per-worker count times
/// worker count, which may fall short of the request.
pub fn effective_iterations(iterations: usize, thread_count: usize) -> (r: usize)
    requires
        thread_count >= 1,
    ensures
        r == (iterations as int / thread_count as int) * thread_count,
        r <= iterations,
{
    let per = iterations / thread_count;
    proof {
        lemma_fundamental_div_mod(iterations as int, thread_count as int);
    }
    per * thread_count
}

/// Replay one worker's full operation sequence against a store. The
/// final counter of every key is its old counter plus the number of
/// writes the deterministic sequence directs at it.
pub fn run_worker(
    store: &mut ShardedStore,
    seed: u64,
    ops: usize,
    keys: usize,
    read_millis: u64,
)
    requires
        old(store).wf(),
        keys >= 1,
        ops <= i64::MAX,
        forall|k: usize|
            old(store).contains_key(k) ==> old(store).value_of(k) + ops <= i64::MAX,
    ensures
        final(store).wf(),
        final(store).shard_count() == old(store).shard_count(),
        forall|k: usize|
            #[trigger] final(store).contains_key(k) <==> (old(store).contains_key(k)
                || spec_write_count(seed, ops as nat, keys, read_millis, k) > 0),
        forall|k: usize|
            #[trigger] final(store).contains_key(k) ==> final(store).value_of(k) == (
            if old(store).contains_key(k) {
                old(store).value_of(k) as int
            } else {
                0int
            }) + spec_write_count(seed, ops as nat, keys, read_millis, k),
{
    let mut rng = splitmix64(seed);
    let mut i: usize = 0;
    while i < ops
        invariant
            keys >= 1,
            i <= ops,
            ops <= i64::MAX,
            rng@ == spec_state_after(seed, 2 * i as nat),
            store.wf(),
            store.shard_count() == old(store).shard_count(),
            forall|k: usize|
                old(store).contains_key(k) ==> old(store).value_of(k) + ops <= i64::MAX,
            forall|k: usize|
                #[trigger] store.contains_key(k) <==> (old(store).contains_key(k)
                    || spec_write_count(seed, i as nat, keys, read_millis, k) > 0),
            forall|k: usize|
                #[trigger] store.contains_key(k) ==> store.value_of(k) == (
                if old(store).contains_key(k) {
                    old(store).value_of(k) as int
                } else {
                    0int
                }) + spec_write_count(seed, i as nat, keys, read_millis, k),
        decreases ops - i,
    {
        let ghost pre = *store;
        let (key, is_read) = plan_op(&mut rng, keys, read_millis);
        proof {
            reveal_with_fuel(spec_state_after, 3);
            assert(spec_state_after(seed, 2 * (i + 1) as nat) == spec_advance(
                spec_advance(spec_state_after(seed, 2 * i as nat)),
            ));
            assert(spec_draw(seed, 2 * i as nat) == spec_draw(
                spec_state_after(seed, 2 * i as nat),
                0,
            ));
            assert(spec_draw(seed, 2 * i as nat + 1) == spec_draw(
                spec_state_after(seed, 2 * i as nat),
                1,
            ));
            assert(key == spec_key_at(seed, i as nat, keys));
            assert(is_read == spec_is_read_at(seed, i as nat, read_millis));
            lemma_write_count_le(seed, i as nat, keys, read_millis, key);
        }
        if is_read {
            let _ = store.read(key);
        } else {
            store.increment(key);
        }
        proof {
            assert(spec_write_count(seed, (i + 1) as nat, keys, read_millis, key)
                == spec_write_count(seed, i as nat, keys, read_millis, key) + (
            if !spec_is_read_at(seed, i as nat, read_millis) {
                1nat
            } else {
                0nat
            }));
            assert forall|k2: usize| #[trigger] store.contains_key(k2) <==> (old(
                store,
            ).contains_key(k2) || spec_write_count(seed, (i + 1) as nat, keys, read_millis, k2)
                > 0) by {
                if k2 != key {
                    assert(spec_write_count(seed, (i + 1) as nat, keys, read_millis, k2)
                        == spec_write_count(seed, i as nat, keys, read_millis, k2));
                }
            }
            assert forall|k2: usize| #[trigger] store.contains_key(k2) implies store.value_of(k2)
                == (if old(store).contains_key(k2) {
                old(store).value_of(k2) as int
            } else {
                0int
            }) + spec_write_count(seed, (i + 1) as nat, keys, read_millis, k2) by {
                if k2 != key {
                    assert(spec_write_count(seed, (i + 1) as nat, keys, read_millis, k2)
                        == spec_write_count(seed, i as nat, keys, read_millis, k2));
                    assert(pre.contains_key(k2) == store.contains_key(k2));
                }
            }
        }
        i = i + 1;
    }
}

/// Law: determinism. A worker's replay has exactly one outcome: any two
/// stores that stand in `run_worker`'s contract to the same starting
/// store and the same parameters agree on every key. The sequence of
/// (key, kind) pairs itself is fixed by the seed alone, as `plan_op`'s
/// contract states through `spec_key_at` and `spec_is_read_at`.
pub proof fn lemma_replay_outcome_unique(
    pre: ShardedStore,
    a: ShardedStore,
    b: ShardedStore,
    seed: u64,
    ops: nat,
    keys: usize,
    read_millis: u64,
)
    requires
        forall|k: usize|
            #[trigger] a.contains_key(k) <==> (pre.contains_key(k) || spec_write_count(
                seed,
                ops,
                keys,
                read_millis,
                k,
            ) > 0),
        forall|k: usize|
            #[trigger] a.contains_key(k) ==> a.value_of(k) == (if pre.contains_key(k) {
                pre.value_of(k) as int
            } else {
                0int
            }) + spec_write_count(seed, ops, keys, read_millis, k),
        forall|k: usize|
            #[trigger] b.contains_key(k) <==> (pre.contains_key(k) || spec_write_count(
                seed,
                ops,
                keys,
                read_millis,
                k,
            ) > 0),
        forall|k: usize|
            #[trigger] b.contains_key(k) ==> b.value_of(k) == (if pre.contains_key(k) {
                pre.value_of(k) as int
            } else {
                0int
            }) + spec_write_count(seed, ops, keys, read_millis, k),
    ensures
        forall|k: usize| #[trigger] a.contains_key(k) <==> b.contains_key(k),
        forall|k: usize| #[trigger] a.contains_key(k) ==> a.value_of(k) == b.value_of(k),
{
    assert forall|k: usize| #[trigger] a.contains_key(k) implies a.value_of(k) == b.value_of(
        k,
    ) by {
        assert(b.contains_key(k));
    }
}

/// The seed handed to worker `t` of a run with base seed `base`.
pub open spec fn spec_worker_seed(base: u64, t: nat) -> u64 {
    (base + t) as u64
}

/// How many of the writes of a whole run (the first `workers` workers,
/// `ops` operations each) go to key `k`.
pub open spec fn spec_total_write_count(
    base_seed: u64,
    workers: nat,
    ops: nat,
    keys: usize,
    read_millis: u64,
    k: usize,
) -> nat
    decreases workers,
{
    if workers == 0 {
        0
    } else {
        spec_total_write_count(base_seed, (workers - 1) as nat, ops, keys, read_millis, k)
            + spec_write_count(
            spec_worker_seed(base_seed, (workers - 1) as nat),
            ops,
            keys,
            read_millis,
            k,
        )
    }
}

/// A run cannot write to one key more often than it operates in total.
pub proof fn lemma_total_write_count_le(
    base_seed: u64,
    workers: nat,
    ops: nat,
    keys: usize,
    read_millis: u64,
    k: usize,
)
    ensures
        spec_total_write_count(base_seed, workers, ops, keys, read_millis, k) <= workers * ops,
    decreases workers,
{
    if workers > 0 {
        lemma_total_write_count_le(base_seed, (workers - 1) as nat, ops, keys, read_millis, k);
        lemma_write_count_le(
            spec_worker_seed(base_seed, (workers - 1) as nat),
            ops,
            keys,
            read_millis,
            k,
        );
        assert((workers - 1) * ops + ops == workers * ops) by (nonlinear_arith);
    }
}

/// Replay a whole run: populate a fresh store, then run every worker's
/// sequence in turn. Returns the store and the effective iteration
/// count. After the run, every key of the key space holds exactly the
/// number of writes the deterministic sequences direct at it.
pub fn run_workload(
    thread_count: usize,
    iterations: usize,
    keys: usize,
    read_millis: u64,
    seed: u64,
    shard_count: usize,
) -> (r: (ShardedStore, usize))
    requires
        thread_count >= 1,
        keys >= 1,
        shard_count >= 1,
        iterations <= i64::MAX,
        seed + thread_count <= u64::MAX,
    ensures
        r.0.wf(),
        r.0.shard_count() == shard_count,
        forall|k: usize| #[trigger] r.0.contains_key(k) <==> k < keys,
        forall|k: usize|
            k < keys ==> r.0.value_of(k) == spec_total_write_count(
                seed,
                thread_count as nat,
                (iterations as int / thread_count as int) as nat,
                keys,
                read_millis,
                k,
            ),
        r.1 == (iterations as int / thread_count as int) * thread_count,
        r.1 <= iterations,
{
    let mut store = ShardedStore::new(keys, shard_count);
    let per = per_worker_iterations(iterations, thread_count);
    proof {
        lemma_fundamental_div_mod(iterations as int, thread_count as int);
    }
    let mut t: usize = 0;
    while t < thread_count
        invariant
            thread_count >= 1,
            keys >= 1,
            t <= thread_count,
            iterations <= i64::MAX,
            seed + thread_count <= u64::MAX,
            per == iterations as int / thread_count as int,
            per * thread_count <= iterations,
            store.wf(),
            store.shard_count() == shard_count,
            forall|k: usize| #[trigger] store.contains_key(k) <==> k < keys,
            forall|k: usize|
                k < keys ==> store.value_of(k) == spec_total_write_count(
                    seed,
                    t as nat,
                    per as nat,
                    keys,
                    read_millis,
                    k,
                ),
        decreases thread_count - t,
    {
        let ws = worker_seed(seed, t);
        proof {
            assert forall|k: usize| #[trigger] store.contains_key(k) implies store.value_of(k)
                + per <= i64::MAX by {
                lemma_total_write_count_le(seed, t as nat, per as nat, keys, read_millis, k);
                assert((t as int) * per + per == (t as int + 1) * per) by (nonlinear_arith);
                lemma_mul_inequality(t as int + 1, thread_count as int, per as int);
                assert(thread_count as int * per == per * thread_count) by (nonlinear_arith);
            }
        }
        run_worker(&mut store, ws, per, keys, read_millis);
        proof {
            assert forall|k: usize| #[trigger] store.contains_key(k) <==> k < keys by {
                if k >= keys {
                    lemma_write_count_key_in_range(ws, per as nat, keys, read_millis, k);
                }
            }
            assert forall|k: usize| k < keys implies store.value_of(k) == spec_total_write_count(
                seed,
                (t + 1) as nat,
                per as nat,
                keys,
                read_millis,
                k,
            ) by {
                assert(spec_worker_seed(seed, t as nat) == ws);
                assert(store.contains_key(k));
            }
        }
        t = t + 1;
    }
    let eff = effective_iterations(iterations, thread_count);
    (store, eff)
}

} // verus!
