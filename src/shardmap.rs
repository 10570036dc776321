//! The map: a fixed sequence of shards, a digest function and a routing strategy.

use crate::config::{
    check_shard_count, create_hasher, hasher_for, mask_route, masked, valid_shard_count, Config, RoutingConfig,
    DEFAULT_SHARD_COUNT,
};
use crate::error::Error;
use crate::hash::ShardHasher;
use crate::iter::{snapshot_of, ConcurrentIter, SnapshotIter};
use crate::shard::Shard;
use crate::stats::{
    capped, entries_max, entries_sum, operations_sum, Diagnostics, ShardDiagnostics, ShardOps,
    Stats,
};
use crate::laws::lemma_loads_sum;
use crate::table::{
    cleared, unchanged, retained_by,
    entry_removed, got_or_inserted, got_or_made, inserted, placed, removed, renamed, tried_insert,
    updated,
};
use std::hash::Hash;
use std::sync::Arc;
use vstd::arithmetic::power2::{lemma2_to64, pow2};
use vstd::prelude::*;
use vstd::pervasive::cloned;
use vstd::std_specs::hash::obeys_key_model;

verus! {

broadcast use vstd::function::group_function_axioms;

/// The sum of the sizes of the given tables.
pub open spec fn total_len<K, V>(tables: Seq<Map<K, Arc<V>>>) -> int
    decreases tables.len(),
{
    if tables.len() == 0 {
        0
    } else {
        total_len(tables.drop_last()) + tables.last().len()
    }
}

/// The sum of a sequence of counts.
pub open spec fn counts_sum(s: Seq<usize>) -> int
    decreases s.len(),
{
    if s.len() == 0 {
        0
    } else {
        counts_sum(s.drop_last()) + s.last()
    }
}

/// The outcome of a rename whose keys lie on two different shards, over the states
/// that each step of the protocol saw: `d0` and `d1` are the target shard when it was
/// checked before and after the removal, `s0` and `s1` the source shard before and
/// after the removal, `s2` and `s3` the source shard before and after a restoring
/// insertion, `d2` and `d3` the target shard before and after the final insertion.
///
/// The protocol fails with `KeyAlreadyExists` before any change when `new` is present;
/// it fails with `KeyNotFound` with no change when `old` is absent; otherwise it removes
/// `old`, and either puts the very same cell back under `old` (when `new` appeared in
/// the meantime) and fails with `KeyAlreadyExists`, or binds `new` to that cell.
pub open spec fn cross_renamed<K, V>(
    old: K,
    new: K,
    r: Result<(), Error>,
    d0: Map<K, Arc<V>>,
    s0: Map<K, Arc<V>>,
    s1: Map<K, Arc<V>>,
    d1: Map<K, Arc<V>>,
    s2: Map<K, Arc<V>>,
    s3: Map<K, Arc<V>>,
    d2: Map<K, Arc<V>>,
    d3: Map<K, Arc<V>>,
) -> bool {
    if d0.contains_key(new) {
        r == Err::<(), Error>(Error::KeyAlreadyExists)
    } else if !s0.contains_key(old) {
        r == Err::<(), Error>(Error::KeyNotFound) && s1 == s0
    } else {
        &&& s1 == s0.remove(old)
        &&& if d1.contains_key(new) {
            r == Err::<(), Error>(Error::KeyAlreadyExists) && s3 == s2.insert(old, s0[old])
        } else {
            r == Ok::<(), Error>(()) && d3 == d2.insert(new, s0[old])
        }
    }
}

/// The sum of the counts, capped at `usize::MAX`.
pub fn total_of(counts: &Vec<usize>) -> (r: usize)
    ensures
        r == capped(counts_sum(counts@), usize::MAX as int),
{
    let mut total: usize = 0;
    let mut i: usize = 0;
    while i < counts.len()
        invariant
            i <= counts@.len(),
            total == capped(counts_sum(counts@.take(i as int)), usize::MAX as int),
        decreases counts@.len() - i,
    {
        proof {
            assert(counts@.take(i + 1).drop_last() =~= counts@.take(i as int));
        }
        total = total.saturating_add(counts[i]);
        i = i + 1;
    }
    proof {
        assert(counts@.take(i as int) =~= counts@);
    }
    total
}

/// Whether every count is zero.
pub fn all_zero(counts: &Vec<usize>) -> (r: bool)
    ensures
        r == forall|i: int| 0 <= i < counts@.len() ==> #[trigger] counts@[i] == 0,
{
    let mut i: usize = 0;
    while i < counts.len()
        invariant
            i <= counts@.len(),
            forall|j: int| 0 <= j < i ==> #[trigger] counts@[j] == 0,
        decreases counts@.len() - i,
    {
        if counts[i] != 0 {
            return false;
        }
        i = i + 1;
    }
    true
}

/// A sum of counts is zero exactly when every count is.
pub proof fn lemma_counts_sum_zero(s: Seq<usize>)
    ensures
        counts_sum(s) >= 0,
        (counts_sum(s) == 0) == (forall|i: int| 0 <= i < s.len() ==> #[trigger] s[i] == 0),
    decreases s.len(),
{
    if s.len() > 0 {
        lemma_counts_sum_zero(s.drop_last());
        if counts_sum(s) == 0 {
            assert forall|i: int| 0 <= i < s.len() implies #[trigger] s[i] == 0 by {
                if i < s.len() - 1 {
                    assert(s[i] == s.drop_last()[i]);
                }
            }
        }
        if forall|i: int| 0 <= i < s.len() ==> #[trigger] s[i] == 0 {
            assert forall|i: int| 0 <= i < s.drop_last().len() implies #[trigger] s.drop_last()[i] == 0 by {
                assert(s.drop_last()[i] == s[i]);
            }
        }
    }
}

/// `caps[i]` is at least the size of `obs[i]`, for each shard.
pub open spec fn room_for<K, V>(caps: Seq<usize>, obs: Seq<Map<K, Arc<V>>>) -> bool {
    &&& caps.len() == obs.len()
    &&& forall|i: int| 0 <= i < caps.len() ==> #[trigger] caps[i] >= obs[i].len()
}

/// Each of the first `n` shards went from `before[i]` to the empty table `after[i]`.
pub open spec fn each_cleared<K, V>(before: Seq<Map<K, Arc<V>>>, after: Seq<Map<K, Arc<V>>>, n: int) -> bool {
    &&& before.len() == n
    &&& after.len() == n
    &&& forall|i: int| 0 <= i < n ==> #[trigger] cleared(before[i], after[i])
}

/// Each of the first `n` shards kept its bindings.
pub open spec fn each_unchanged<K, V>(before: Seq<Map<K, Arc<V>>>, after: Seq<Map<K, Arc<V>>>, n: int) -> bool {
    &&& before.len() == n
    &&& after.len() == n
    &&& forall|i: int| 0 <= i < n ==> #[trigger] unchanged(before[i], after[i])
}

/// For each of the first `n` shards, `after[i]` is `before[i]` with the entries on which
/// `f` answered `false` removed.
pub open spec fn retained_per_shard<K, V: Clone, F: FnMut(&K, &mut V) -> bool>(
    before: Seq<Map<K, Arc<V>>>,
    after: Seq<Map<K, Arc<V>>>,
    f: F,
    n: int,
) -> bool {
    &&& before.len() == n
    &&& after.len() == n
    &&& forall|i: int| 0 <= i < n ==> #[trigger] retained_by(before[i], after[i], f)
}

/// High-performance concurrent sharded map.
///
/// Splits the data across shards, each with its own lock, so that operations on
/// different shards do not block each other. Values live in shared cells (`Arc<V>`)
/// that readers hold without copying.
#[verifier::reject_recursive_types(K)]
#[verifier::reject_recursive_types(V)]
pub struct ShardMap<K, V> {
    shards: Vec<Shard<K, V>>,
    shard_mask: usize,
    hash: ShardHasher,
    routing: RoutingConfig,
}

impl<K: Hash + Eq, V> ShardMap<K, V> {
    /// The map's fixed shape: a valid number of shards and the matching mask.
    pub closed spec fn wf(&self) -> bool {
        &&& valid_shard_count(self.shards@.len() as usize)
        &&& self.shards@.len() <= usize::MAX
        &&& self.shard_mask == self.shards@.len() - 1
    }

    /// The number of shards.
    pub closed spec fn shard_count(&self) -> usize {
        self.shards@.len() as usize
    }

    /// The digest function that places keys.
    pub closed spec fn hasher(&self) -> ShardHasher {
        self.hash
    }

    /// The tables that the shards' locks were created holding, one per shard: the
    /// states that each shard's first operation sees.
    pub closed spec fn initial_tables(&self) -> Seq<Map<K, Arc<V>>> {
        self.shards@.map_values(|s: Shard<K, V>| s.initial())
    }

    /// Every shard was created empty.
    pub open spec fn starts_empty(&self) -> bool {
        &&& self.initial_tables().len() == self.shard_count()
        &&& forall|i: int|
            0 <= i < self.initial_tables().len() ==> #[trigger] self.initial_tables()[i] == Map::<
                K,
                Arc<V>,
            >::empty()
    }

    /// Whether keys are placed by the digest's low bits.
    pub closed spec fn default_routing(&self) -> bool {
        self.routing is Default
    }

    /// The map may place a key with digest `h` on shard `i`: `i` is in range and, under
    /// default routing, is the digest's low bits.
    pub open spec fn places(&self, h: u64, i: usize) -> bool {
        &&& i < self.shard_count()
        &&& self.default_routing() ==> i == mask_route(h, self.shard_count())
    }

    /// A new map with defaults (16 shards, aHash).
    pub fn new() -> (r: ShardMap<K, V>)
        ensures
            r.wf(),
            r.shard_count() == DEFAULT_SHARD_COUNT,
            r.default_routing(),
            r.hasher() == ShardHasher::AHash,
            r.starts_empty(),
    {
        proof {
            lemma2_to64();
            assert(pow2(4) == 16);
        }
        match ShardMap::with_config(Config::default()) {
            Ok(m) => m,
            Err(_) => {
                proof {
                    assert(false);
                }
                vstd::pervasive::unreached()
            },
        }
    }

    /// A new map with the given number of shards, which must be a power of two.
    pub fn with_shard_count(shard_count: usize) -> (r: Result<ShardMap<K, V>, Error>)
        ensures
            r is Ok <==> valid_shard_count(shard_count),
            r is Err ==> r->Err_0 == Error::InvalidShardCount,
            r matches Ok(m) ==> m.wf() && m.shard_count() == shard_count && m.default_routing()
                && m.hasher() == ShardHasher::AHash && m.starts_empty(),
    {
        match Config::default().shard_count(shard_count) {
            Ok(c) => ShardMap::with_config(c),
            Err(e) => Err(e),
        }
    }

    /// A new map of 16 shards with room for at least `capacity` entries in all,
    /// spread evenly.
    pub fn with_capacity(capacity: usize) -> (r: ShardMap<K, V>)
        ensures
            r.wf(),
            r.shard_count() == DEFAULT_SHARD_COUNT,
            r.default_routing(),
            r.hasher() == ShardHasher::AHash,
            r.starts_empty(),
    {
        let config = Config::default();
        let cap_per_shard = capacity.saturating_add(DEFAULT_SHARD_COUNT - 1) / DEFAULT_SHARD_COUNT;
        let config = config.capacity_per_shard(cap_per_shard);
        proof {
            lemma2_to64();
            assert(pow2(4) == 16);
        }
        match ShardMap::with_config(config) {
            Ok(m) => m,
            Err(_) => {
                proof {
                    assert(false);
                }
                vstd::pervasive::unreached()
            },
        }
    }

    /// A new map with the given configuration.
    pub fn with_config(config: Config) -> (r: Result<ShardMap<K, V>, Error>)
        ensures
            r is Ok <==> valid_shard_count(config.spec_shard_count()),
            r is Err ==> r->Err_0 == Error::InvalidShardCount,
            r matches Ok(m) ==> m.wf() && m.shard_count() == config.spec_shard_count()
                && m.default_routing() == config.spec_default_routing() && m.hasher() == hasher_for(
                config.spec_hash_function(),
            ) && m.starts_empty(),
    {
        proof {
            config.reveal_fields();
        }
        let shard_count = config.shard_count;
        if !check_shard_count(shard_count) {
            return Err(Error::InvalidShardCount);
        }
        let cap_per_shard = match config.capacity_per_shard {
            Some(c) => c,
            None => 0,
        };
        let mut shards: Vec<Shard<K, V>> = Vec::with_capacity(shard_count);
        let mut i: usize = 0;
        while i < shard_count
            invariant
                i <= shard_count,
                shards@.len() == i,
                forall|j: int| 0 <= j < i ==> #[trigger] shards@[j].initial() == Map::<K, Arc<V>>::empty(),
            decreases shard_count - i,
        {
            shards.push(Shard::with_capacity(cap_per_shard));
            i = i + 1;
        }
        let m = ShardMap {
            shards,
            shard_mask: shard_count - 1,
            hash: create_hasher(config.hash_function),
            routing: config.routing,
        };
        assert(m.starts_empty());
        Ok(m)
    }

    /// The shard that a digest goes to.
    fn route_hash(&self, hash: u64) -> (r: usize)
        requires
            self.wf(),
        ensures
            self.places(hash, r),
    {
        match &self.routing {
            RoutingConfig::Default => masked(hash, self.shards.len()),
            RoutingConfig::Custom(router) => router.route(hash, self.shards.len()),
        }
    }

    /// The shard that a key goes to.
    fn shard_index(&self, key: &K) -> (r: usize)
        requires
            self.wf(),
        ensures
            exists|h: u64| self.places(h, r),
    {
        let hash = self.hash.hash_key(key);
        self.route_hash(hash)
    }

    /// The digest that places `key`; use it with `shard_for_hash` or the `*_by_hash`
    /// operations when a digest is already at hand.
    pub fn hash_for_key<Q: Hash + ?Sized>(&self, key: &Q) -> (r: u64) {
        self.hash.hash_key(key)
    }

    /// The shard that a digest goes to.
    pub fn shard_for_hash(&self, hash: u64) -> (r: usize)
        requires
            self.wf(),
        ensures
            self.places(hash, r),
    {
        self.route_hash(hash)
    }

    /// The shard that `key` goes to: the shard of its digest.
    pub fn shard_for_key<Q: Hash + ?Sized>(&self, key: &Q) -> (r: usize)
        requires
            self.wf(),
        ensures
            exists|h: u64| self.places(h, r),
    {
        self.shard_for_hash(self.hash_for_key(key))
    }

    /// Inserts a key-value pair, returning the previous cell if the key was present.
    pub fn insert(&self, key: K, value: V) -> (r: Option<Arc<V>>)
        requires
            self.wf(),
            obeys_key_model::<K>(),
        ensures
            exists|b: Map<K, Arc<V>>, a: Map<K, Arc<V>>| inserted(b, a, key, value, r),
    {
        let i = self.shard_index(&key);
        self.shards[i].insert(key, value)
    }

    /// The cell of `key`, as a handle shared with the map.
    pub fn get(&self, key: &K) -> (r: Option<Arc<V>>)
        requires
            self.wf(),
            obeys_key_model::<K>(),
        ensures
            exists|t: Map<K, Arc<V>>| r == t.get(*key),
    {
        let i = self.shard_index(key);
        self.shards[i].get(key)
    }

    /// Removes `key`, returning its cell if it was present.
    pub fn remove(&self, key: &K) -> (r: Option<Arc<V>>)
        requires
            self.wf(),
            obeys_key_model::<K>(),
        ensures
            exists|b: Map<K, Arc<V>>, a: Map<K, Arc<V>>| removed(b, a, *key, r),
    {
        let i = self.shard_index(key);
        self.shards[i].remove(key)
    }

    /// The cell of `key`, looked up on the shard of the given digest.
    pub fn get_by_hash(&self, key: &K, key_hash: u64) -> (r: Option<Arc<V>>)
        requires
            self.wf(),
            obeys_key_model::<K>(),
        ensures
            exists|t: Map<K, Arc<V>>| r == t.get(*key),
    {
        let i = self.shard_for_hash(key_hash);
        self.shards[i].get(key)
    }

    /// Inserts on the shard of the given digest, returning the previous cell if any.
    pub fn insert_by_hash(&self, key: K, value: V, key_hash: u64) -> (r: Option<Arc<V>>)
        requires
            self.wf(),
            obeys_key_model::<K>(),
        ensures
            exists|b: Map<K, Arc<V>>, a: Map<K, Arc<V>>| inserted(b, a, key, value, r),
    {
        let i = self.shard_for_hash(key_hash);
        self.shards[i].insert(key, value)
    }

    /// Removes `key` from the shard of the given digest.
    pub fn remove_by_hash(&self, key: &K, key_hash: u64) -> (r: Option<Arc<V>>)
        requires
            self.wf(),
            obeys_key_model::<K>(),
        ensures
            exists|b: Map<K, Arc<V>>, a: Map<K, Arc<V>>| removed(b, a, *key, r),
    {
        let i = self.shard_for_hash(key_hash);
        self.shards[i].remove(key)
    }

    /// Whether the map holds `key`.
    pub fn contains_key(&self, key: &K) -> (r: bool)
        requires
            self.wf(),
            obeys_key_model::<K>(),
        ensures
            exists|t: Map<K, Arc<V>>| r == t.contains_key(*key),
    {
        let i = self.shard_index(key);
        self.shards[i].contains_key(key)
    }

    /// Removes all entries, one shard at a time.
    pub fn clear(&self)
        requires
            self.wf(),
        ensures
            exists|before: Seq<Map<K, Arc<V>>>, after: Seq<Map<K, Arc<V>>>|
                #[trigger] each_cleared(before, after, self.shard_count() as int),
    {
        let ghost mut before: Seq<Map<K, Arc<V>>> = Seq::empty();
        let ghost mut after: Seq<Map<K, Arc<V>>> = Seq::empty();
        let mut i: usize = 0;
        while i < self.shards.len()
            invariant
                i <= self.shards@.len(),
                each_cleared(before, after, i as int),
            decreases self.shards@.len() - i,
        {
            self.shards[i].clear();
            let ghost (b, a) = choose|b: Map<K, Arc<V>>, a: Map<K, Arc<V>>| #[trigger] cleared(b, a);
            proof {
                before = before.push(b);
                after = after.push(a);
            }
            i = i + 1;
        }
        assert(each_cleared(before, after, self.shard_count() as int));
    }

    /// Keeps only the entries for which `f` returns `true`, one shard at a time; `f` may
    /// change the values it is given, copying a cell first when readers still hold it.
    pub fn retain<F: FnMut(&K, &mut V) -> bool>(&self, f: F)
        where
            V: Clone,
        requires
            self.wf(),
            forall|k: &K, v: &mut V| #[trigger] f.requires((k, v)),
        ensures
            exists|before: Seq<Map<K, Arc<V>>>, after: Seq<Map<K, Arc<V>>>|
                #[trigger] retained_per_shard(before, after, f, self.shard_count() as int),
    {
        let ghost f0 = f;
        let mut f = f;
        let ghost mut before: Seq<Map<K, Arc<V>>> = Seq::empty();
        let ghost mut after: Seq<Map<K, Arc<V>>> = Seq::empty();
        let mut i: usize = 0;
        while i < self.shards.len()
            invariant
                i <= self.shards@.len(),
                f == f0,
                forall|k: &K, v: &mut V| #[trigger] f0.requires((k, v)),
                retained_per_shard(before, after, f0, i as int),
            decreases self.shards@.len() - i,
        {
            f = self.shards[i].retain(f);
            proof {
                let (b, a) = choose|b: Map<K, Arc<V>>, a: Map<K, Arc<V>>| #[trigger] retained_by(b, a, f0);
                before = before.push(b);
                after = after.push(a);
            }
            i = i + 1;
        }
        assert(retained_per_shard(before, after, f0, self.shard_count() as int));
    }

    /// Total capacity across all shards (saturating at `usize::MAX`).
    pub fn capacity(&self) -> (r: usize)
        requires
            self.wf(),
            obeys_key_model::<K>(),
        ensures
            exists|caps: Seq<usize>, obs: Seq<Map<K, Arc<V>>>|
                #[trigger] room_for(caps, obs) && obs.len() == self.shard_count() && r == capped(
                    counts_sum(caps),
                    usize::MAX as int,
                ),
    {
        let mut caps: Vec<usize> = Vec::with_capacity(self.shards.len());
        let ghost mut obs: Seq<Map<K, Arc<V>>> = Seq::empty();
        let mut i: usize = 0;
        while i < self.shards.len()
            invariant
                i <= self.shards@.len(),
                obeys_key_model::<K>(),
                obs.len() == i,
                room_for(caps@, obs),
            decreases self.shards@.len() - i,
        {
            let c = self.shards[i].capacity();
            let ghost t = choose|t: Map<K, Arc<V>>| c >= t.len();
            caps.push(c);
            proof {
                obs = obs.push(t);
            }
            i = i + 1;
        }
        total_of(&caps)
    }

    /// Releases each shard's spare memory; the entries stay.
    pub fn shrink_to_fit(&self)
        requires
            self.wf(),
        ensures
            exists|before: Seq<Map<K, Arc<V>>>, after: Seq<Map<K, Arc<V>>>|
                #[trigger] each_unchanged(before, after, self.shard_count() as int),
    {
        let ghost mut before: Seq<Map<K, Arc<V>>> = Seq::empty();
        let ghost mut after: Seq<Map<K, Arc<V>>> = Seq::empty();
        let mut i: usize = 0;
        while i < self.shards.len()
            invariant
                i <= self.shards@.len(),
                each_unchanged(before, after, i as int),
            decreases self.shards@.len() - i,
        {
            self.shards[i].shrink_to_fit();
            let ghost (b, a) = choose|b: Map<K, Arc<V>>, a: Map<K, Arc<V>>| #[trigger] unchanged(b, a);
            proof {
                before = before.push(b);
                after = after.push(a);
            }
            i = i + 1;
        }
        assert(each_unchanged(before, after, self.shard_count() as int));
    }

    /// The cell of `key`, inserting a new cell that holds `value` when absent.
    pub fn get_or_insert(&self, key: K, value: V) -> (r: Arc<V>)
        requires
            self.wf(),
            obeys_key_model::<K>(),
        ensures
            exists|b: Map<K, Arc<V>>, a: Map<K, Arc<V>>| got_or_inserted(b, a, key, value, r),
    {
        let i = self.shard_index(&key);
        self.shards[i].get_or_insert(key, value)
    }

    /// The cell of `key`, inserting a new cell that holds `f()` when absent; `f` runs
    /// only then.
    pub fn get_or_insert_with<F: FnOnce() -> V>(&self, key: K, f: F) -> (r: Arc<V>)
        requires
            self.wf(),
            obeys_key_model::<K>(),
            f.requires(()),
        ensures
            exists|b: Map<K, Arc<V>>, a: Map<K, Arc<V>>| got_or_made(b, a, key, f, r),
    {
        let i = self.shard_index(&key);
        self.shards[i].get_or_insert_with(key, f)
    }

    /// Inserts only when `key` is absent: `Ok` with the new cell, or `Err` with the cell
    /// already there.
    pub fn try_insert(&self, key: K, value: V) -> (r: Result<Arc<V>, Arc<V>>)
        requires
            self.wf(),
            obeys_key_model::<K>(),
        ensures
            exists|b: Map<K, Arc<V>>, a: Map<K, Arc<V>>| tried_insert(b, a, key, value, r),
    {
        let i = self.shard_index(&key);
        self.shards[i].try_insert(key, value)
    }

    /// Applies `f` to the value of `key`, when present, and returns the new cell.
    /// Handles given out before keep the value they saw.
    pub fn update<F: FnOnce(&mut V)>(&self, key: &K, f: F) -> (r: Option<Arc<V>>)
        where
            V: Clone,
        requires
            self.wf(),
            obeys_key_model::<K>(),
            forall|v: &mut V| #[trigger] f.requires((v,)),
        ensures
            exists|b: Map<K, Arc<V>>, a: Map<K, Arc<V>>|
                updated(b, a, *key, r) && (b.contains_key(*key) ==> exists|v: &mut V|
                    #[trigger] f.ensures((v,), ()) && cloned(*b[*key], *v) && *final(v) == *a[*key]),
    {
        let i = self.shard_index(key);
        self.shards[i].update(key, f)
    }

    /// Renames `old_key` to `new_key`, moving its cell without copying it.
    ///
    /// When both keys lie on one shard the move is one critical section of that shard.
    /// Otherwise it follows the two-shard protocol of `cross_renamed`, which never holds
    /// two locks at once. Either way it fails with `KeyNotFound` when `old_key` is
    /// absent and with `KeyAlreadyExists` when `new_key` is present.
    pub fn rename(&self, old_key: &K, new_key: K) -> (r: Result<(), Error>)
        requires
            self.wf(),
            obeys_key_model::<K>(),
        ensures
            (exists|b: Map<K, Arc<V>>, a: Map<K, Arc<V>>| renamed(b, a, *old_key, new_key, r))
                || (exists|
                d0: Map<K, Arc<V>>,
                s0: Map<K, Arc<V>>,
                s1: Map<K, Arc<V>>,
                d1: Map<K, Arc<V>>,
                s2: Map<K, Arc<V>>,
                s3: Map<K, Arc<V>>,
                d2: Map<K, Arc<V>>,
                d3: Map<K, Arc<V>>,
            | cross_renamed(*old_key, new_key, r, d0, s0, s1, d1, s2, s3, d2, d3)),
    {
        let old_shard_idx = self.shard_index(old_key);
        let new_shard_idx = self.shard_index(&new_key);
        if old_shard_idx == new_shard_idx {
            return self.shards[old_shard_idx].rename(old_key, new_key);
        }
        self.rename_cross_shard(old_key, new_key, old_shard_idx, new_shard_idx)
    }

    /// The rename protocol across two shards.
    fn rename_cross_shard(
        &self,
        old_key: &K,
        new_key: K,
        old_shard_idx: usize,
        new_shard_idx: usize,
    ) -> (r: Result<(), Error>)
        requires
            self.wf(),
            obeys_key_model::<K>(),
            old_shard_idx < self.shard_count(),
            new_shard_idx < self.shard_count(),
        ensures
            exists|
                d0: Map<K, Arc<V>>,
                s0: Map<K, Arc<V>>,
                s1: Map<K, Arc<V>>,
                d1: Map<K, Arc<V>>,
                s2: Map<K, Arc<V>>,
                s3: Map<K, Arc<V>>,
                d2: Map<K, Arc<V>>,
                d3: Map<K, Arc<V>>,
            | cross_renamed(*old_key, new_key, r, d0, s0, s1, d1, s2, s3, d2, d3),
    {
        let old_shard = &self.shards[old_shard_idx];
        let new_shard = &self.shards[new_shard_idx];
        let ghost any = Map::<K, Arc<V>>::empty();

        // Step 1: a read of the target shard; nothing has changed yet.
        let present = new_shard.contains_key(&new_key);
        let ghost d0 = choose|t: Map<K, Arc<V>>| present == t.contains_key(new_key);
        if present {
            assert(cross_renamed(*old_key, new_key, Err(Error::KeyAlreadyExists), d0, any, any, any, any, any, any, any));
            return Err(Error::KeyAlreadyExists);
        }

        // Step 2: take the entry out of the source shard.
        let taken = old_shard.remove_entry(old_key);
        let ghost (s0, s1) = choose|b: Map<K, Arc<V>>, a: Map<K, Arc<V>>| entry_removed(b, a, *old_key, taken);
        let (key, cell) = match taken {
            Some(e) => e,
            None => {
                assert(cross_renamed(*old_key, new_key, Err(Error::KeyNotFound), d0, s0, s1, any, any, any, any, any)) by {
                    assert(s1 =~= s0);
                }
                return Err(Error::KeyNotFound);
            },
        };

        // Step 3: the target may have gained `new_key` meanwhile; if so, put the cell back.
        let present = new_shard.contains_key(&new_key);
        let ghost d1 = choose|t: Map<K, Arc<V>>| present == t.contains_key(new_key);
        if present {
            let back = old_shard.insert_arc(key, cell);
            let ghost (s2, s3) = choose|b: Map<K, Arc<V>>, a: Map<K, Arc<V>>| placed(b, a, *old_key, s0[*old_key], back);
            assert(cross_renamed(*old_key, new_key, Err(Error::KeyAlreadyExists), d0, s0, s1, d1, s2, s3, any, any));
            return Err(Error::KeyAlreadyExists);
        }

        // Step 4: bind the new key to the same cell.
        let ghost nk = new_key;
        let prior = new_shard.insert_arc(new_key, cell);
        let ghost (d2, d3) = choose|b: Map<K, Arc<V>>, a: Map<K, Arc<V>>| placed(b, a, nk, s0[*old_key], prior);
        assert(cross_renamed(*old_key, nk, Ok(()), d0, s0, s1, d1, any, any, d2, d3));
        Ok(())
    }

    /// The entry count of each shard, each read under that shard's lock in turn.
    pub fn shard_loads(&self) -> (r: Vec<usize>)
        requires
            self.wf(),
            obeys_key_model::<K>(),
        ensures
            r@.len() == self.shard_count(),
            exists|obs: Seq<Map<K, Arc<V>>>|
                obs.len() == r@.len() && forall|i: int| 0 <= i < obs.len() ==> #[trigger] r@[i] == obs[i].len(),
    {
        let mut loads: Vec<usize> = Vec::with_capacity(self.shards.len());
        let ghost mut obs: Seq<Map<K, Arc<V>>> = Seq::empty();
        let mut i: usize = 0;
        while i < self.shards.len()
            invariant
                i <= self.shards@.len(),
                obeys_key_model::<K>(),
                loads@.len() == i,
                obs.len() == i,
                forall|j: int| 0 <= j < i ==> #[trigger] loads@[j] == obs[j].len(),
            decreases self.shards@.len() - i,
        {
            let n = self.shards[i].len();
            let ghost t = choose|t: Map<K, Arc<V>>| n == t.len();
            loads.push(n);
            proof {
                obs = obs.push(t);
            }
            i = i + 1;
        }
        loads
    }

    /// The total number of entries (saturating at `usize::MAX`), counting one shard at a
    /// time under its lock.
    pub fn len(&self) -> (r: usize)
        requires
            self.wf(),
            obeys_key_model::<K>(),
        ensures
            exists|obs: Seq<Map<K, Arc<V>>>|
                obs.len() == self.shard_count() && r == capped(#[trigger] total_len(obs), usize::MAX as int),
    {
        let loads = self.shard_loads();
        let ghost obs = choose|obs: Seq<Map<K, Arc<V>>>|
            obs.len() == loads@.len() && forall|i: int| 0 <= i < obs.len() ==> #[trigger] loads@[i] == obs[i].len();
        proof {
            lemma_loads_sum(loads@, obs);
        }
        total_of(&loads)
    }

    /// Whether every shard is empty, checking one shard at a time.
    pub fn is_empty(&self) -> (r: bool)
        requires
            self.wf(),
            obeys_key_model::<K>(),
        ensures
            exists|obs: Seq<Map<K, Arc<V>>>|
                obs.len() == self.shard_count() && (r <==> #[trigger] total_len(obs) == 0),
    {
        let loads = self.shard_loads();
        let ghost obs = choose|obs: Seq<Map<K, Arc<V>>>|
            obs.len() == loads@.len() && forall|i: int| 0 <= i < obs.len() ==> #[trigger] loads@[i] == obs[i].len();
        proof {
            lemma_loads_sum(loads@, obs);
            lemma_counts_sum_zero(loads@);
        }
        all_zero(&loads)
    }

    /// A snapshot of every shard's entry count and counters, with the derived totals.
    pub fn diagnostics(&self) -> (r: Diagnostics)
        requires
            self.wf(),
            obeys_key_model::<K>(),
        ensures
            r.shards@.len() == self.shard_count(),
            exists|obs: Seq<Map<K, Arc<V>>>|
                obs.len() == r.shards@.len() && forall|i: int|
                    0 <= i < obs.len() ==> #[trigger] r.shards@[i].entries == obs[i].len(),
            r.consistent(),
            r.total_entries == capped(entries_sum(r.shards@), usize::MAX as int),
            r.max_shard_entries == entries_max(r.shards@),
            r.total_operations == capped(operations_sum(r.shards@), u64::MAX as int),
    {
        let mut shards: Vec<ShardDiagnostics> = Vec::with_capacity(self.shards.len());
        let ghost mut obs: Seq<Map<K, Arc<V>>> = Seq::empty();
        let mut i: usize = 0;
        while i < self.shards.len()
            invariant
                i <= self.shards@.len(),
                obeys_key_model::<K>(),
                shards@.len() == i,
                obs.len() == i,
                forall|j: int| 0 <= j < i ==> #[trigger] shards@[j].entries == obs[j].len(),
            decreases self.shards@.len() - i,
        {
            let d = self.shards[i].diagnostics_snapshot();
            let ghost t = choose|t: Map<K, Arc<V>>| d.entries == t.len();
            shards.push(d);
            proof {
                obs = obs.push(t);
            }
            i = i + 1;
        }
        Diagnostics::from_shards(shards)
    }

    /// The shard sizes, their total and each shard's counters.
    pub fn stats(&self) -> (r: Stats)
        requires
            self.wf(),
            obeys_key_model::<K>(),
        ensures
            r.shard_sizes@.len() == self.shard_count(),
            r.operations@.len() == self.shard_count(),
            exists|obs: Seq<Map<K, Arc<V>>>|
                obs.len() == r.shard_sizes@.len() && forall|i: int|
                    0 <= i < obs.len() ==> #[trigger] r.shard_sizes@[i] == obs[i].len(),
            r.size == capped(counts_sum(r.shard_sizes@), usize::MAX as int),
    {
        let shard_sizes = self.shard_loads();
        let mut operations: Vec<ShardOps> = Vec::with_capacity(self.shards.len());
        let mut i: usize = 0;
        while i < self.shards.len()
            invariant
                i <= self.shards@.len(),
                operations@.len() == i,
            decreases self.shards@.len() - i,
        {
            operations.push(self.shards[i].stats());
            i = i + 1;
        }
        let mut size: usize = 0;
        let mut j: usize = 0;
        while j < shard_sizes.len()
            invariant
                j <= shard_sizes@.len(),
                size == capped(counts_sum(shard_sizes@.take(j as int)), usize::MAX as int),
            decreases shard_sizes@.len() - j,
        {
            proof {
                assert(shard_sizes@.take(j + 1).drop_last() =~= shard_sizes@.take(j as int));
            }
            size = size.saturating_add(shard_sizes[j]);
            j = j + 1;
        }
        proof {
            assert(shard_sizes@.take(j as int) =~= shard_sizes@);
        }
        Stats { size, shard_sizes, operations }
    }

    /// A walk over a copy of all entries, taken one shard at a time; later changes to
    /// the map do not show in it.
    pub fn iter_snapshot(&self) -> (r: SnapshotIter<K, V>)
        where
            K: Clone,
        requires
            self.wf(),
            obeys_key_model::<K>(),
        ensures
            r.wf(),
            r.position() == 0,
            exists|obs: Seq<Map<K, Arc<V>>>|
                obs.len() == self.shard_count() && r.remaining() == #[trigger] total_len(obs),
            exists|obs: Seq<Map<K, Arc<V>>>, parts: Seq<Seq<(K, Arc<V>)>>|
                #[trigger] snapshot_of(obs, parts, r.items()) && obs.len() == self.shard_count(),
    {
        let shards = self.shards.as_slice();
        assert(shards@.len() == self.shard_count());
        SnapshotIter::new(shards)
    }

    /// A walk that copies one shard at a time, as it reaches it; it shows changes to
    /// the shards it has not reached yet.
    pub fn iter_concurrent(&self) -> (r: ConcurrentIter<'_, K, V>)
        where
            K: Clone,
        ensures
            r.wf(),
    {
        ConcurrentIter::new(self.shards.as_slice())
    }
}

impl<K: Hash + Eq, V> Default for ShardMap<K, V> {
    fn default() -> (r: ShardMap<K, V>) {
        ShardMap::new()
    }
}

} // verus!
