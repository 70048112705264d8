//! Sharded counter store: a fixed number of independent key-to-counter
//! maps covering the key space. A key always lives in the shard given by
//! `shard_of`, and in no other; initialization pre-populates every key in
//! `[0, keys)` with the counter 0.

use std::collections::HashMap;
use vstd::prelude::*;

verus! {

broadcast use vstd::std_specs::hash::group_hash_axioms;

/// The shard that owns `key`: `key mod shard_count`.
pub open spec fn shard_of(key: usize, shard_count: int) -> int {
    key as int % shard_count
}

/// The shard that owns `key`, as a machine integer.
pub fn shard_index(key: usize, shard_count: usize) -> (s: usize)
    requires
        shard_count >= 1,
    ensures
        s == shard_of(key, shard_count as int),
        s < shard_count,
{
    key % shard_count
}

/// Look a key up in one shard's map.
pub fn shard_lookup(m: &HashMap<usize, i64>, key: usize) -> (r: Option<i64>)
    ensures
        r == if m@.contains_key(key) {
            Some(m@[key])
        } else {
            None::<i64>
        },
{
    match m.get(&key) {
        Some(v) => Some(*v),
        None => None,
    }
}

/// Add one to a key's counter in one shard's map, starting it at 1 if
/// the key is absent.
pub fn shard_bump(m: &mut HashMap<usize, i64>, key: usize)
    requires
        old(m)@.contains_key(key) ==> old(m)@[key] < i64::MAX,
    ensures
        final(m)@ == old(m)@.insert(
            key,
            if old(m)@.contains_key(key) {
                (old(m)@[key] + 1) as i64
            } else {
                1i64
            },
        ),
{
    let cur: i64 = match m.get(&key) {
        Some(v) => *v,
        None => 0,
    };
    m.insert(key, cur + 1);
}

/// A fixed set of independently held key-to-counter maps.
pub struct ShardedStore {
    shards: Vec<HashMap<usize, i64>>,
}

impl ShardedStore {
    /// Number of shards.
    pub closed spec fn shard_count(self) -> int {
        self.shards@.len() as int
    }

    /// The mapping held by shard `s`.
    pub closed spec fn shard_map(self, s: int) -> Map<usize, i64> {
        self.shards@[s]@
    }

    /// Every key sits only in its owning shard.
    pub closed spec fn wf(self) -> bool {
        &&& self.shards@.len() >= 1
        &&& forall|s: int, k: usize|
            0 <= s < self.shards@.len() && #[trigger] self.shards@[s]@.contains_key(k) ==> s
                == shard_of(k, self.shards@.len() as int)
    }

    /// Whether the store holds a counter for `k`.
    pub closed spec fn contains_key(self, k: usize) -> bool {
        self.shards@[shard_of(k, self.shard_count())]@.contains_key(k)
    }

    /// The counter held for `k` (meaningful only when `contains_key(k)`).
    pub closed spec fn value_of(self, k: usize) -> i64 {
        self.shards@[shard_of(k, self.shard_count())]@[k]
    }

    /// Create `shard_count` shards and insert every key in `[0, keys)`
    /// into its owning shard with counter 0.
    pub fn new(keys: usize, shard_count: usize) -> (r: ShardedStore)
        requires
            shard_count >= 1,
        ensures
            r.wf(),
            r.shard_count() == shard_count,
            forall|k: usize| k < keys ==> r.contains_key(k) && r.value_of(k) == 0,
            forall|k: usize| k >= keys ==> !r.contains_key(k),
    {
        let mut shards: Vec<HashMap<usize, i64>> = Vec::new();
        let mut s: usize = 0;
        while s < shard_count
            invariant
                s <= shard_count,
                shards@.len() == s,
                forall|j: int| 0 <= j < s ==> #[trigger] shards@[j]@ == Map::<usize, i64>::empty(),
            decreases shard_count - s,
        {
            shards.push(HashMap::new());
            s = s + 1;
        }
        let mut store = ShardedStore { shards };
        let mut k: usize = 0;
        while k < keys
            invariant
                store.shards@.len() == shard_count,
                shard_count >= 1,
                k <= keys,
                forall|s2: int, j: usize|
                    0 <= s2 < shard_count && #[trigger] store.shards@[s2]@.contains_key(j) ==> s2
                        == shard_of(j, shard_count as int) && j < k,
                forall|j: usize|
                    j < k ==> #[trigger] store.contains_key(j) && store.value_of(j) == 0,
            decreases keys - k,
        {
            let idx = k % shard_count;
            let ghost pre = store;
            let m = &mut store.shards[idx];
            m.insert(k, 0);
            proof {
                assert forall|j: usize| j < k + 1 implies #[trigger] store.contains_key(j)
                    && store.value_of(j) == 0 by {
                    if j < k {
                        assert(pre.contains_key(j));
                        assert(pre.value_of(j) == 0);
                        assert(store.contains_key(j));
                    } else {
                        assert(shard_of(j, shard_count as int) == idx);
                    }
                }
            }
            k = k + 1;
        }
        proof {
            assert forall|j: usize| j < keys implies store.contains_key(j) && store.value_of(j)
                == 0 by {
                assert(store.contains_key(j));
                assert(store.value_of(j) == 0);
            }
        }
        store
    }

    /// Number of shards as a machine integer.
    pub fn num_shards(&self) -> (n: usize)
        ensures
            n == self.shard_count(),
    {
        self.shards.len()
    }

    /// Point-in-time read of a key's counter from its owning shard.
    pub fn read(&self, key: usize) -> (r: Option<i64>)
        requires
            self.wf(),
        ensures
            r == if self.contains_key(key) {
                Some(self.value_of(key))
            } else {
                None::<i64>
            },
    {
        let idx = key % self.shards.len();
        shard_lookup(&self.shards[idx], key)
    }

    /// Add one to a key's counter in its owning shard, starting it at 1
    /// if the key is absent.
    pub fn increment(&mut self, key: usize)
        requires
            old(self).wf(),
            old(self).contains_key(key) ==> old(self).value_of(key) < i64::MAX,
        ensures
            final(self).wf(),
            final(self).shard_count() == old(self).shard_count(),
            final(self).contains_key(key),
            final(self).value_of(key) == if old(self).contains_key(key) {
                old(self).value_of(key) + 1
            } else {
                1int
            },
            forall|k2: usize|
                k2 != key ==> #[trigger] final(self).contains_key(k2) == old(self).contains_key(
                    k2,
                ),
            forall|k2: usize|
                k2 != key && old(self).contains_key(k2) ==> #[trigger] final(self).value_of(k2)
                    == old(self).value_of(k2),
            forall|j: int|
                0 <= j < old(self).shard_count() && j != shard_of(key, old(self).shard_count())
                    ==> #[trigger] final(self).shard_map(j) == old(self).shard_map(j),
    {
        let idx = key % self.shards.len();
        let m = &mut self.shards[idx];
        shard_bump(m, key);
    }
}

/// Law: shard routing. A well-formed store holds a key only in the
/// shard `shard_of` names: shard `j` holds `k` exactly when `j` is
/// `k mod shard_count` and the store holds `k`. Since every operation
/// keeps the store well-formed and the shard count fixed, a key's
/// route never changes over the store's lifetime.
pub proof fn lemma_key_routed_to_owning_shard(store: ShardedStore, k: usize, j: int)
    requires
        store.wf(),
        0 <= j < store.shard_count(),
    ensures
        store.shard_map(j).contains_key(k) <==> (j == shard_of(k, store.shard_count())
            && store.contains_key(k)),
{
}

/// Law: coverage. In a freshly initialized store — one where every key
/// of the key space is held with counter 0 — each such key sits in its
/// owning shard with counter 0 and in no other shard.
pub proof fn lemma_initial_coverage(store: ShardedStore, keys: usize, k: usize, j: int)
    requires
        store.wf(),
        forall|k2: usize| k2 < keys ==> #[trigger] store.contains_key(k2) && store.value_of(k2) == 0,
        k < keys,
        0 <= j < store.shard_count(),
    ensures
        store.shard_map(shard_of(k, store.shard_count())).contains_key(k),
        store.shard_map(shard_of(k, store.shard_count()))[k] == 0,
        j != shard_of(k, store.shard_count()) ==> !store.shard_map(j).contains_key(k),
{
    assert(store.contains_key(k));
    lemma_key_routed_to_owning_shard(store, k, j);
}

} // verus!
