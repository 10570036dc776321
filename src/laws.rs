//! What follows when the map's operations are chained.
//!
//! Each operation states the transition it made on its shard's table (see `table`).
//! When no other thread acts in between, the state one call leaves is the state the
//! next call sees; the lemmas below take such chains and state their outcome.

use crate::config::mask_route;
use crate::error::Error;
use crate::shardmap::{counts_sum, cross_renamed, total_len, ShardMap};
use crate::stats::{capped, entries_sum, ShardDiagnostics};
use crate::table::{inserted, removed, renamed};
use std::hash::Hash;
use std::sync::Arc;
use vstd::prelude::*;

verus! {

/// Under default routing a digest has one shard: two placements of the same digest agree,
/// and that shard is the digest's low bits.
pub proof fn law_one_shard_per_digest<K: Hash + Eq, V>(m: &ShardMap<K, V>, h: u64, i: usize, j: usize)
    requires
        m.default_routing(),
        m.places(h, i),
        m.places(h, j),
    ensures
        i == j,
        i == mask_route(h, m.shard_count()),
{
}

/// After `insert(k, v)`, a `get(k)` yields a cell holding `v`; after a following
/// `remove(k)`, which hands back that cell, `get(k)` yields nothing.
pub proof fn law_insert_get_remove<K, V>(
    b: Map<K, Arc<V>>,
    a: Map<K, Arc<V>>,
    k: K,
    v: V,
    r_insert: Option<Arc<V>>,
    r_get: Option<Arc<V>>,
    a2: Map<K, Arc<V>>,
    r_remove: Option<Arc<V>>,
    r_get2: Option<Arc<V>>,
)
    requires
        inserted(b, a, k, v, r_insert),
        r_get == a.get(k),
        removed(a, a2, k, r_remove),
        r_get2 == a2.get(k),
    ensures
        r_get is Some && *r_get->Some_0 == v,
        r_remove == r_get,
        r_get2 is None,
{
}

/// `insert(k, v1)` then `insert(k, v2)`: the second call returns the cell holding `v1`,
/// and `get(k)` then yields a cell holding `v2`.
pub proof fn law_overwrite_returns_previous<K, V>(
    b: Map<K, Arc<V>>,
    a1: Map<K, Arc<V>>,
    a2: Map<K, Arc<V>>,
    k: K,
    v1: V,
    v2: V,
    r1: Option<Arc<V>>,
    r2: Option<Arc<V>>,
    r_get: Option<Arc<V>>,
)
    requires
        inserted(b, a1, k, v1, r1),
        inserted(a1, a2, k, v2, r2),
        r_get == a2.get(k),
    ensures
        r2 is Some && *r2->Some_0 == v1,
        r_get is Some && *r_get->Some_0 == v2,
{
}

/// A rename within one shard is all or nothing: on success `old` is gone and `new`
/// holds the cell `old` had; on failure the table is unchanged.
pub proof fn law_rename_in_shard_all_or_nothing<K, V>(
    b: Map<K, Arc<V>>,
    a: Map<K, Arc<V>>,
    old: K,
    new: K,
    r: Result<(), Error>,
)
    requires
        renamed(b, a, old, new, r),
    ensures
        r is Ok ==> b.contains_key(old) && !a.contains_key(old) && a.contains_key(new) && a[new]
            == b[old],
        r is Err ==> a == b,
{
}

/// A rename across two shards, with no other thread acting on them meanwhile, is all or
/// nothing: on success `old` is gone from the source and `new` holds its cell in the
/// target; on failure the source ends as it began and the target was never written.
pub proof fn law_rename_across_shards_all_or_nothing<K, V>(
    old: K,
    new: K,
    r: Result<(), Error>,
    d0: Map<K, Arc<V>>,
    s0: Map<K, Arc<V>>,
    s1: Map<K, Arc<V>>,
    d1: Map<K, Arc<V>>,
    s2: Map<K, Arc<V>>,
    s3: Map<K, Arc<V>>,
    d2: Map<K, Arc<V>>,
    d3: Map<K, Arc<V>>,
)
    requires
        cross_renamed(old, new, r, d0, s0, s1, d1, s2, s3, d2, d3),
        d1 == d0,
        s2 == s1,
        d2 == d1,
    ensures
        r is Ok ==> s0.contains_key(old) && !s1.contains_key(old) && d3.contains_key(new)
            && d3[new] == s0[old],
        r is Ok ==> d3 == d0.insert(new, s0[old]),
        r == Err::<(), Error>(Error::KeyNotFound) ==> !s0.contains_key(old) && s1 == s0,
        r == Err::<(), Error>(Error::KeyAlreadyExists) ==> d0.contains_key(new),
        r == Err::<(), Error>(Error::KeyAlreadyExists) && !d0.contains_key(new) ==> s0.contains_key(
            old,
        ) && s3 == s0,
{
    if r == Err::<(), Error>(Error::KeyAlreadyExists) && !d0.contains_key(new) {
        assert(s3 =~= s0);
    }
}

/// A rename across two shards that runs while other threads insert `new` into the
/// target, and leave `old` alone in the source, never loses the key: on success the
/// target holds `new` with the moved cell and the source no longer holds `old`; when
/// `new` appeared after the removal, the very same cell is back under `old`, and the
/// target was not written by the rename.
pub proof fn law_rename_under_concurrent_insert<K, V>(
    old: K,
    new: K,
    r: Result<(), Error>,
    d0: Map<K, Arc<V>>,
    s0: Map<K, Arc<V>>,
    s1: Map<K, Arc<V>>,
    d1: Map<K, Arc<V>>,
    s2: Map<K, Arc<V>>,
    s3: Map<K, Arc<V>>,
    d2: Map<K, Arc<V>>,
    d3: Map<K, Arc<V>>,
)
    requires
        cross_renamed(old, new, r, d0, s0, s1, d1, s2, s3, d2, d3),
        s0.contains_key(old),
        !s2.contains_key(old),
    ensures
        r is Ok ==> !s1.contains_key(old) && d3.contains_key(new) && d3[new] == s0[old],
        r is Err ==> r == Err::<(), Error>(Error::KeyAlreadyExists),
        r is Err && !d0.contains_key(new) ==> d1.contains_key(new) && s3.contains_key(old) && s3[old]
            == s0[old],
{
}

/// A rename onto a key that is present fails with `KeyAlreadyExists`, and `old` keeps its
/// cell: within one shard the table is unchanged; across shards the rename stops at its
/// first step, before it writes anything.
pub proof fn law_rename_onto_present_key<K, V>(
    b: Map<K, Arc<V>>,
    a: Map<K, Arc<V>>,
    old: K,
    new: K,
    r: Result<(), Error>,
    d0: Map<K, Arc<V>>,
    s0: Map<K, Arc<V>>,
    s1: Map<K, Arc<V>>,
    d1: Map<K, Arc<V>>,
    s2: Map<K, Arc<V>>,
    s3: Map<K, Arc<V>>,
    d2: Map<K, Arc<V>>,
    d3: Map<K, Arc<V>>,
)
    ensures
        renamed(b, a, old, new, r) && b.contains_key(old) && b.contains_key(new) ==> r == Err::<
            (),
            Error,
        >(Error::KeyAlreadyExists) && a == b && a[old] == b[old],
        cross_renamed(old, new, r, d0, s0, s1, d1, s2, s3, d2, d3) && d0.contains_key(new) ==> r
            == Err::<(), Error>(Error::KeyAlreadyExists),
{
}

/// Replacing one table of a sequence changes the total size by the difference.
proof fn lemma_total_len_update<K, V>(tables: Seq<Map<K, Arc<V>>>, i: int, t: Map<K, Arc<V>>)
    requires
        0 <= i < tables.len(),
    ensures
        total_len(tables.update(i, t)) == total_len(tables) - tables[i].len() + t.len(),
    decreases tables.len(),
{
    let u = tables.update(i, t);
    if i == tables.len() - 1 {
        assert(u.drop_last() =~= tables.drop_last());
    } else {
        assert(u.drop_last() =~= tables.drop_last().update(i, t));
        lemma_total_len_update(tables.drop_last(), i, t);
    }
}

/// Empty tables hold nothing in total.
proof fn lemma_total_len_empty<K, V>(tables: Seq<Map<K, Arc<V>>>)
    requires
        forall|s: int| 0 <= s < tables.len() ==> #[trigger] tables[s] == Map::<K, Arc<V>>::empty(),
    ensures
        total_len(tables) == 0,
    decreases tables.len(),
{
    if tables.len() > 0 {
        assert(tables.last() == tables[tables.len() - 1]);
        lemma_total_len_empty(tables.drop_last());
    }
}

/// Loads read off the tables one by one sum to the tables' total size.
pub proof fn lemma_loads_sum<K, V>(loads: Seq<usize>, tables: Seq<Map<K, Arc<V>>>)
    requires
        loads.len() == tables.len(),
        forall|i: int| 0 <= i < loads.len() ==> #[trigger] loads[i] == tables[i].len(),
    ensures
        counts_sum(loads) == total_len(tables),
    decreases loads.len(),
{
    if loads.len() > 0 {
        lemma_loads_sum(loads.drop_last(), tables.drop_last());
    }
}

/// Entry counts read off the tables one by one sum to the tables' total size.
pub proof fn lemma_entries_sum<K, V>(shards: Seq<ShardDiagnostics>, tables: Seq<Map<K, Arc<V>>>)
    requires
        shards.len() == tables.len(),
        forall|i: int| 0 <= i < shards.len() ==> #[trigger] shards[i].entries == tables[i].len(),
    ensures
        entries_sum(shards) == total_len(tables),
    decreases shards.len(),
{
    if shards.len() > 0 {
        lemma_entries_sum(shards.drop_last(), tables.drop_last());
    }
}

/// The `j`-th insert of a chain: shard `shard_of[j]` went from its state in `history[j]`
/// to its state in `history[j + 1]` by inserting `keys[j]`, and no other shard changed.
pub open spec fn insert_step<K, V>(
    history: Seq<Seq<Map<K, Arc<V>>>>,
    shard_of: Seq<int>,
    keys: Seq<K>,
    values: Seq<V>,
    results: Seq<Option<Arc<V>>>,
    j: int,
) -> bool {
    &&& history[j + 1].len() == history[j].len()
    &&& 0 <= shard_of[j] < history[j].len()
    &&& inserted(history[j][shard_of[j]], history[j + 1][shard_of[j]], keys[j], values[j], results[j])
    &&& forall|s: int|
        0 <= s < history[j].len() && s != shard_of[j] ==> #[trigger] history[j + 1][s] == history[j][s]
}

/// The first `i` inserts of a chain of distinct keys into empty shards each found its
/// key absent, and left `i` entries, all of them among the first `i` keys.
proof fn lemma_distinct_inserts_prefix<K, V>(
    history: Seq<Seq<Map<K, Arc<V>>>>,
    shard_of: Seq<int>,
    keys: Seq<K>,
    values: Seq<V>,
    results: Seq<Option<Arc<V>>>,
    i: int,
)
    requires
        0 <= i <= keys.len(),
        keys.no_duplicates(),
        history.len() == keys.len() + 1,
        shard_of.len() == keys.len(),
        values.len() == keys.len(),
        results.len() == keys.len(),
        forall|s: int|
            0 <= s < history[0].len() ==> #[trigger] history[0][s] == Map::<K, Arc<V>>::empty(),
        forall|j: int| 0 <= j < keys.len() ==> #[trigger] insert_step(history, shard_of, keys, values, results, j),
    ensures
        total_len(history[i]) == i,
        forall|j: int| 0 <= j < i ==> #[trigger] results[j] is None,
        history[i].len() == history[0].len(),
        forall|s: int| 0 <= s < history[i].len() ==> #[trigger] history[i][s].dom().finite(),
        forall|s: int, k: K|
            0 <= s < history[i].len() && #[trigger] history[i][s].contains_key(k) ==> exists|j: int|
                0 <= j < i && keys[j] == k,
    decreases i,
{
    if i == 0 {
        lemma_total_len_empty(history[0]);
        assert forall|s: int| 0 <= s < history[0].len() implies #[trigger] history[0][s].dom().finite() by {
            assert(history[0][s].dom() =~= Set::<K>::empty());
        }
    } else {
        let p = i - 1;
        lemma_distinct_inserts_prefix(history, shard_of, keys, values, results, p);
        assert(insert_step(history, shard_of, keys, values, results, p));
        let s = shard_of[p];
        let before = history[p];
        let after = history[p + 1];
        assert(after =~= before.update(s, after[s]));
        if before[s].contains_key(keys[p]) {
            let j = choose|j: int| 0 <= j < p && keys[j] == keys[p];
            assert(keys[j] == keys[p]);
        }
        assert(!before[s].contains_key(keys[p]));
        assert(after[s].dom() =~= before[s].dom().insert(keys[p]));
        assert(after[s].len() == before[s].len() + 1);
        assert forall|t: int| 0 <= t < after.len() implies #[trigger] after[t].dom().finite() by {
            if t != s {
                assert(after[t] == before[t]);
            }
        }
        lemma_total_len_update(before, s, after[s]);
        assert forall|t: int, k: K|
            0 <= t < after.len() && #[trigger] after[t].contains_key(k) implies exists|j: int|
                0 <= j < i && keys[j] == k by {
            if t == s && k == keys[p] {
                assert(keys[p] == k);
            } else {
                assert(before[t].contains_key(k));
                let j = choose|j: int| 0 <= j < p && keys[j] == k;
                assert(0 <= j < i && keys[j] == k);
            }
        }
    }
}

/// Inserting `n` distinct keys one after another into a map built empty leaves `n`
/// entries in all: every insert finds its key absent, the shard loads sum to `n`, and so do
/// `len()` and `diagnostics().total_entries` read off the final tables. `history[i]` is
/// the tables before the `i`-th insert, which went to shard `shard_of[i]`; the first
/// of them are the tables that `m`'s shards were created holding.
pub proof fn law_distinct_inserts_count<K: Hash + Eq, V>(
    m: &ShardMap<K, V>,
    history: Seq<Seq<Map<K, Arc<V>>>>,
    shard_of: Seq<int>,
    keys: Seq<K>,
    values: Seq<V>,
    results: Seq<Option<Arc<V>>>,
    loads: Seq<usize>,
    len: usize,
    diag: Seq<ShardDiagnostics>,
    total_entries: usize,
)
    requires
        keys.no_duplicates(),
        keys.len() <= usize::MAX,
        history.len() == keys.len() + 1,
        shard_of.len() == keys.len(),
        values.len() == keys.len(),
        results.len() == keys.len(),
        m.starts_empty(),
        history[0] == m.initial_tables(),
        forall|j: int| 0 <= j < keys.len() ==> #[trigger] insert_step(history, shard_of, keys, values, results, j),
        loads.len() == history.last().len(),
        forall|s: int| 0 <= s < loads.len() ==> #[trigger] loads[s] == history.last()[s].len(),
        len == capped(total_len(history.last()), usize::MAX as int),
        diag.len() == history.last().len(),
        forall|s: int|
            0 <= s < diag.len() ==> #[trigger] diag[s].entries == history.last()[s].len(),
        total_entries == capped(entries_sum(diag), usize::MAX as int),
    ensures
        forall|i: int| 0 <= i < keys.len() ==> #[trigger] results[i] is None,
        total_len(history.last()) == keys.len(),
        counts_sum(loads) == keys.len(),
        len == keys.len(),
        total_entries == keys.len(),
{
    assert(forall|s: int|
        0 <= s < history[0].len() ==> #[trigger] history[0][s] == Map::<K, Arc<V>>::empty());
    lemma_distinct_inserts_prefix(history, shard_of, keys, values, results, keys.len() as int);
    assert(history.last() == history[keys.len() as int]);
    lemma_loads_sum(loads, history.last());
    lemma_entries_sum(diag, history.last());
}

} // verus!
