//! A shard: one table behind one reader/writer lock, with its own counters.
//!
//! Other threads may act on the shard between two calls, so each operation promises
//! what holds of its own critical section: it took the table from some state `before`
//! to a state `after` by one of the transitions of `table`.

use crate::error::Error;
use crate::lock::{new_lock, with_read, with_write};
use crate::stats::{ShardDiagnostics, ShardOps, ShardStats};
use crate::table::{
    empty_out, entry_removed, retained_by, cleared, unchanged, get_or_put, got_or_made, get_or_put_with, holds, inserted, lookup, new_table, placed, put, put_new,
    removed, rename_in, retain_in, renamed, size, take, take_entry, tried_insert, update_in, updated, Table,
    got_or_inserted, room, compact, entries, lists,
};
use std::hash::Hash;
use std::sync::Arc;
use vstd::prelude::*;
use vstd::std_specs::hash::obeys_key_model;

verus! {

/// A single shard: a table protected by a reader/writer lock.
#[verifier::reject_recursive_types(K)]
#[verifier::reject_recursive_types(V)]
pub struct Shard<K, V> {
    map: parking_lot::RwLock<Table<K, V>>,
    stats: ShardStats,
    created: Ghost<Map<K, Arc<V>>>,
}

impl<K: Hash + Eq, V> Shard<K, V> {
    /// The table that this shard's lock was created holding: the state that the
    /// shard's first operation sees.
    pub closed spec fn initial(&self) -> Map<K, Arc<V>> {
        self.created@
    }

    /// An empty shard.
    pub fn new() -> (r: Shard<K, V>)
        ensures
            r.initial() == Map::<K, Arc<V>>::empty(),
    {
        Shard::with_capacity(0)
    }

    /// An empty shard with room for `capacity` entries.
    pub fn with_capacity(capacity: usize) -> (r: Shard<K, V>)
        ensures
            r.initial() == Map::<K, Arc<V>>::empty(),
    {
        let table = new_table(capacity);
        let ghost contents = table@;
        Shard { map: new_lock(table), stats: ShardStats::new(), created: Ghost(contents) }
    }

    /// Inserts a key-value pair, returning the previous cell if any. A write is counted
    /// only when the key was absent; an overwrite is not.
    pub fn insert(&self, key: K, value: V) -> (r: Option<Arc<V>>)
        requires
            obeys_key_model::<K>(),
        ensures
            exists|b: Map<K, Arc<V>>, a: Map<K, Arc<V>>| inserted(b, a, key, value, r),
    {
        let cell = Arc::new(value);
        let f = move |t: &mut Table<K, V>| -> (r: Option<Arc<V>>)
            requires
                obeys_key_model::<K>(),
            ensures
                placed(old(t)@, final(t)@, key, cell, r),
            { put(t, key, cell) };
        let ghost fg = f;
        self.stats.record_lock_acquisition();
        let r = with_write(&self.map, f);
        proof {
            let t = choose|t: &mut Table<K, V>| #[trigger] fg.ensures((t,), r);
            assert(inserted((*t)@, (*final(t))@, key, value, r));
        }
        if r.is_none() {
            self.stats.record_write();
        }
        r
    }

    /// The cell of `key`, as a new handle; the table is not changed.
    pub fn get(&self, key: &K) -> (r: Option<Arc<V>>)
        requires
            obeys_key_model::<K>(),
        ensures
            exists|t: Map<K, Arc<V>>| r == t.get(*key),
    {
        let f = |t: &Table<K, V>| -> (r: Option<Arc<V>>)
            requires
                obeys_key_model::<K>(),
            ensures
                r == t@.get(*key),
            { lookup(t, key) };
        let ghost fg = f;
        self.stats.record_lock_acquisition();
        let r = with_read(&self.map, f);
        proof {
            let t = choose|t: &Table<K, V>| #[trigger] fg.ensures((t,), r);
            assert(r == t@.get(*key));
        }
        if r.is_some() {
            self.stats.record_read();
        }
        r
    }

    /// Removes `key`, returning its cell if it was present.
    pub fn remove(&self, key: &K) -> (r: Option<Arc<V>>)
        requires
            obeys_key_model::<K>(),
        ensures
            exists|b: Map<K, Arc<V>>, a: Map<K, Arc<V>>| removed(b, a, *key, r),
    {
        let f = |t: &mut Table<K, V>| -> (r: Option<Arc<V>>)
            requires
                obeys_key_model::<K>(),
            ensures
                removed(old(t)@, final(t)@, *key, r),
            { take(t, key) };
        let ghost fg = f;
        self.stats.record_lock_acquisition();
        let r = with_write(&self.map, f);
        proof {
            let t = choose|t: &mut Table<K, V>| #[trigger] fg.ensures((t,), r);
            assert(removed((*t)@, (*final(t))@, *key, r));
        }
        if r.is_some() {
            self.stats.record_remove();
        }
        r
    }

    /// Removes `key`, returning the stored key with its cell if it was present.
    pub fn remove_entry(&self, key: &K) -> (r: Option<(K, Arc<V>)>)
        requires
            obeys_key_model::<K>(),
        ensures
            exists|b: Map<K, Arc<V>>, a: Map<K, Arc<V>>| entry_removed(b, a, *key, r),
    {
        let f = |t: &mut Table<K, V>| -> (r: Option<(K, Arc<V>)>)
            requires
                obeys_key_model::<K>(),
            ensures
                entry_removed(old(t)@, final(t)@, *key, r),
            { take_entry(t, key) };
        let ghost fg = f;
        self.stats.record_lock_acquisition();
        let r = with_write(&self.map, f);
        proof {
            let t = choose|t: &mut Table<K, V>| #[trigger] fg.ensures((t,), r);
            assert(entry_removed((*t)@, (*final(t))@, *key, r));
        }
        if r.is_some() {
            self.stats.record_remove();
        }
        r
    }

    /// Applies `f` to the value of `key`, when present, and returns the new cell.
    /// A cell that readers still hold is left as it is: `f` then runs on a copy that
    /// takes its place.
    pub fn update<F: FnOnce(&mut V)>(&self, key: &K, f: F) -> (r: Option<Arc<V>>)
        where
            V: Clone,
        requires
            obeys_key_model::<K>(),
            forall|v: &mut V| #[trigger] f.requires((v,)),
        ensures
            exists|b: Map<K, Arc<V>>, a: Map<K, Arc<V>>|
                updated(b, a, *key, r) && (b.contains_key(*key) ==> exists|v: &mut V|
                    #[trigger] f.ensures((v,), ()) && cloned(*b[*key], *v) && *final(v) == *a[*key]),
    {
        let ghost fk = f;
        let g = move |t: &mut Table<K, V>| -> (r: Option<Arc<V>>)
            requires
                obeys_key_model::<K>(),
                forall|v: &mut V| #[trigger] fk.requires((v,)),
            ensures
                updated(old(t)@, final(t)@, *key, r),
                old(t)@.contains_key(*key) ==> exists|v: &mut V|
                    #[trigger] fk.ensures((v,), ()) && cloned(*old(t)@[*key], *v) && *final(v)
                        == *final(t)@[*key],
            { update_in(t, key, f) };
        let ghost gg = g;
        self.stats.record_lock_acquisition();
        let r = with_write(&self.map, g);
        proof {
            let t = choose|t: &mut Table<K, V>| #[trigger] gg.ensures((t,), r);
            assert(updated((*t)@, (*final(t))@, *key, r));
        }
        if r.is_some() {
            self.stats.record_write();
        }
        r
    }

    /// The number of entries in this shard.
    pub fn len(&self) -> (r: usize)
        requires
            obeys_key_model::<K>(),
        ensures
            exists|t: Map<K, Arc<V>>| r == t.len(),
    {
        let f = |t: &Table<K, V>| -> (r: usize)
            requires
                obeys_key_model::<K>(),
            ensures
                r == t@.len(),
            { size(t) };
        let ghost fg = f;
        self.stats.record_lock_acquisition();
        let r = with_read(&self.map, f);
        proof {
            let t = choose|t: &Table<K, V>| #[trigger] fg.ensures((t,), r);
            assert(r == t@.len());
        }
        r
    }

    /// Whether this shard is empty.
    pub fn is_empty(&self) -> (r: bool)
        requires
            obeys_key_model::<K>(),
        ensures
            exists|t: Map<K, Arc<V>>| r == (t.len() == 0),
    {
        let f = |t: &Table<K, V>| -> (r: bool)
            requires
                obeys_key_model::<K>(),
            ensures
                r == (t@.len() == 0),
            { size(t) == 0 };
        let ghost fg = f;
        self.stats.record_lock_acquisition();
        let r = with_read(&self.map, f);
        proof {
            let t = choose|t: &Table<K, V>| #[trigger] fg.ensures((t,), r);
            assert(r == (t@.len() == 0));
        }
        r
    }

    /// A snapshot of this shard's counters.
    pub fn stats(&self) -> (r: ShardOps) {
        self.stats.snapshot()
    }

    /// The entry count and the counters of this shard.
    pub fn diagnostics_snapshot(&self) -> (r: ShardDiagnostics)
        requires
            obeys_key_model::<K>(),
        ensures
            exists|t: Map<K, Arc<V>>| r.entries == t.len(),
    {
        let entries = self.len();
        let ops = self.stats.snapshot();
        ShardDiagnostics {
            entries,
            reads: ops.reads,
            writes: ops.writes,
            removes: ops.removes,
            lock_acquisitions: ops.lock_acquisitions,
            lock_wait_nanos: ops.lock_wait_nanos,
        }
    }

    /// Whether `key` is present; no cell is handed out.
    pub fn contains_key(&self, key: &K) -> (r: bool)
        requires
            obeys_key_model::<K>(),
        ensures
            exists|t: Map<K, Arc<V>>| r == t.contains_key(*key),
    {
        let f = |t: &Table<K, V>| -> (r: bool)
            requires
                obeys_key_model::<K>(),
            ensures
                r == t@.contains_key(*key),
            { holds(t, key) };
        let ghost fg = f;
        self.stats.record_lock_acquisition();
        let r = with_read(&self.map, f);
        proof {
            let t = choose|t: &Table<K, V>| #[trigger] fg.ensures((t,), r);
            assert(r == t@.contains_key(*key));
        }
        r
    }

    /// Removes `key` and returns its cell; the same as `remove`.
    pub fn take(&self, key: &K) -> (r: Option<Arc<V>>)
        requires
            obeys_key_model::<K>(),
        ensures
            exists|b: Map<K, Arc<V>>, a: Map<K, Arc<V>>| removed(b, a, *key, r),
    {
        self.remove(key)
    }

    /// Moves the cell of `old_key` to `new_key` within this shard, in one critical
    /// section: fails with `KeyNotFound` when `old_key` is absent, or with
    /// `KeyAlreadyExists` when `new_key` is present, and then changes nothing.
    pub fn rename(&self, old_key: &K, new_key: K) -> (r: Result<(), Error>)
        requires
            obeys_key_model::<K>(),
        ensures
            exists|b: Map<K, Arc<V>>, a: Map<K, Arc<V>>| renamed(b, a, *old_key, new_key, r),
    {
        let ghost nk = new_key;
        let f = move |t: &mut Table<K, V>| -> (r: Result<(), Error>)
            requires
                obeys_key_model::<K>(),
            ensures
                renamed(old(t)@, final(t)@, *old_key, nk, r),
            { rename_in(t, old_key, new_key) };
        let ghost fg = f;
        self.stats.record_lock_acquisition();
        let r = with_write(&self.map, f);
        proof {
            let t = choose|t: &mut Table<K, V>| #[trigger] fg.ensures((t,), r);
            assert(renamed((*t)@, (*final(t))@, *old_key, nk, r));
        }
        if r.is_ok() {
            self.stats.record_write();
        }
        r
    }

    /// Binds `key` to an existing cell (the cell itself, not a copy).
    pub fn insert_arc(&self, key: K, cell: Arc<V>) -> (r: Option<Arc<V>>)
        requires
            obeys_key_model::<K>(),
        ensures
            exists|b: Map<K, Arc<V>>, a: Map<K, Arc<V>>| placed(b, a, key, cell, r),
    {
        let ghost c = cell;
        let f = move |t: &mut Table<K, V>| -> (r: Option<Arc<V>>)
            requires
                obeys_key_model::<K>(),
            ensures
                placed(old(t)@, final(t)@, key, c, r),
            { put(t, key, cell) };
        let ghost fg = f;
        self.stats.record_lock_acquisition();
        let r = with_write(&self.map, f);
        proof {
            let t = choose|t: &mut Table<K, V>| #[trigger] fg.ensures((t,), r);
            assert(placed((*t)@, (*final(t))@, key, c, r));
        }
        if r.is_none() {
            self.stats.record_write();
        }
        r
    }

    /// Removes every entry.
    pub fn clear(&self)
        ensures
            exists|b: Map<K, Arc<V>>, a: Map<K, Arc<V>>| #[trigger] cleared(b, a),
    {
        let f = |t: &mut Table<K, V>| -> (r: ())
            ensures
                cleared(old(t)@, final(t)@),
            { empty_out(t) };
        let ghost fg = f;
        self.stats.record_lock_acquisition();
        let done = with_write(&self.map, f);
        proof {
            let t = choose|t: &mut Table<K, V>| #[trigger] fg.ensures((t,), done);
            assert(cleared((*t)@, (*final(t))@));
        }
    }

    /// Keeps only the entries for which `f` returns `true`; `f` may change the values it
    /// is given, copying a cell first when readers still hold it. The predicate is
    /// handed back for the next shard.
    pub fn retain<F: FnMut(&K, &mut V) -> bool>(&self, f: F) -> (r: F)
        where
            V: Clone,
        requires
            forall|k: &K, v: &mut V| #[trigger] f.requires((k, v)),
        ensures
            r == f,
            exists|b: Map<K, Arc<V>>, a: Map<K, Arc<V>>|
                #[trigger] retained_by(b, a, f) && forall|k: K|
                    #[trigger] a.contains_key(k) ==> exists|v: &mut V|
                        #[trigger] f.ensures((&k, v), true) && cloned(*b[k], *v) && *a[k] == *final(v),
    {
        let ghost fk = f;
        let g = move |t: &mut Table<K, V>| -> (r: F)
            requires
                forall|k: &K, v: &mut V| #[trigger] fk.requires((k, v)),
            ensures
                r == fk,
                retained_by(old(t)@, final(t)@, fk),
                forall|k: K|
                    #[trigger] final(t)@.contains_key(k) ==> exists|v: &mut V|
                        #[trigger] fk.ensures((&k, v), true) && cloned(*old(t)@[k], *v) && *final(t)@[k]
                            == *final(v),
            { retain_in(t, f) };
        let ghost gg = g;
        self.stats.record_lock_acquisition();
        let back = with_write(&self.map, g);
        proof {
            let t = choose|t: &mut Table<K, V>| #[trigger] gg.ensures((t,), back);
            assert(retained_by((*t)@, (*final(t))@, f));
        }
        back
    }

    /// How many entries this shard holds before its table must grow.
    pub fn capacity(&self) -> (r: usize)
        requires
            obeys_key_model::<K>(),
        ensures
            exists|t: Map<K, Arc<V>>| r >= t.len(),
    {
        let f = |t: &Table<K, V>| -> (r: usize)
            requires
                obeys_key_model::<K>(),
            ensures
                r >= t@.len(),
            { room(t) };
        let ghost fg = f;
        self.stats.record_lock_acquisition();
        let r = with_read(&self.map, f);
        proof {
            let t = choose|t: &Table<K, V>| #[trigger] fg.ensures((t,), r);
            assert(r >= t@.len());
        }
        r
    }

    /// Releases this shard's spare memory; the entries stay.
    pub fn shrink_to_fit(&self)
        ensures
            exists|b: Map<K, Arc<V>>, a: Map<K, Arc<V>>| #[trigger] unchanged(b, a),
    {
        let f = |t: &mut Table<K, V>| -> (r: ())
            ensures
                unchanged(old(t)@, final(t)@),
            { compact(t) };
        let ghost fg = f;
        self.stats.record_lock_acquisition();
        let done = with_write(&self.map, f);
        proof {
            let t = choose|t: &mut Table<K, V>| #[trigger] fg.ensures((t,), done);
            assert(unchanged((*t)@, (*final(t))@));
        }
    }

    /// The cell of `key`, inserting a new cell that holds `value` when absent.
    pub fn get_or_insert(&self, key: K, value: V) -> (r: Arc<V>)
        requires
            obeys_key_model::<K>(),
        ensures
            exists|b: Map<K, Arc<V>>, a: Map<K, Arc<V>>| got_or_inserted(b, a, key, value, r),
    {
        let ghost val = value;
        let f = move |t: &mut Table<K, V>| -> (r: Arc<V>)
            requires
                obeys_key_model::<K>(),
            ensures
                got_or_inserted(old(t)@, final(t)@, key, val, r),
            { get_or_put(t, key, value) };
        let ghost fg = f;
        self.stats.record_lock_acquisition();
        let r = with_write(&self.map, f);
        proof {
            let t = choose|t: &mut Table<K, V>| #[trigger] fg.ensures((t,), r);
            assert(got_or_inserted((*t)@, (*final(t))@, key, val, r));
        }
        r
    }

    /// The cell of `key`, inserting a new cell that holds `f()` when absent; `f` runs
    /// only then.
    pub fn get_or_insert_with<F: FnOnce() -> V>(&self, key: K, f: F) -> (r: Arc<V>)
        requires
            obeys_key_model::<K>(),
            f.requires(()),
        ensures
            exists|b: Map<K, Arc<V>>, a: Map<K, Arc<V>>| got_or_made(b, a, key, f, r),
    {
        let ghost fk = f;
        let g = move |t: &mut Table<K, V>| -> (r: Arc<V>)
            requires
                obeys_key_model::<K>(),
                fk.requires(()),
            ensures
                got_or_made(old(t)@, final(t)@, key, fk, r),
            { get_or_put_with(t, key, f) };
        let ghost gg = g;
        self.stats.record_lock_acquisition();
        let r = with_write(&self.map, g);
        proof {
            let t = choose|t: &mut Table<K, V>| #[trigger] gg.ensures((t,), r);
            assert(got_or_made((*t)@, (*final(t))@, key, f, r));
        }
        r
    }

    /// Inserts only when `key` is absent: `Ok` with the new cell, or `Err` with the cell
    /// already there.
    pub fn try_insert(&self, key: K, value: V) -> (r: Result<Arc<V>, Arc<V>>)
        requires
            obeys_key_model::<K>(),
        ensures
            exists|b: Map<K, Arc<V>>, a: Map<K, Arc<V>>| tried_insert(b, a, key, value, r),
    {
        let ghost val = value;
        let f = move |t: &mut Table<K, V>| -> (r: Result<Arc<V>, Arc<V>>)
            requires
                obeys_key_model::<K>(),
            ensures
                tried_insert(old(t)@, final(t)@, key, val, r),
            { put_new(t, key, value) };
        let ghost fg = f;
        self.stats.record_lock_acquisition();
        let r = with_write(&self.map, f);
        proof {
            let t = choose|t: &mut Table<K, V>| #[trigger] fg.ensures((t,), r);
            assert(tried_insert((*t)@, (*final(t))@, key, val, r));
        }
        if r.is_ok() {
            self.stats.record_write();
        }
        r
    }

    /// A copy of this shard's entries, one per key, taken under its read lock.
    pub fn entries(&self) -> (r: Vec<(K, Arc<V>)>)
        where
            K: Clone,
        requires
            obeys_key_model::<K>(),
        ensures
            exists|t: Map<K, Arc<V>>| r@.len() == t.len() && #[trigger] lists(t, r@),
    {
        let f = |t: &Table<K, V>| -> (r: Vec<(K, Arc<V>)>)
            requires
                obeys_key_model::<K>(),
            ensures
                r@.len() == t@.len(),
                lists(t@, r@),
            { entries(t) };
        let ghost fg = f;
        self.stats.record_lock_acquisition();
        let r = with_read(&self.map, f);
        proof {
            let t = choose|t: &Table<K, V>| #[trigger] fg.ensures((t,), r);
            assert(r@.len() == t@.len() && lists(t@, r@));
        }
        r
    }
}

impl<K: Hash + Eq, V> Default for Shard<K, V> {
    fn default() -> (r: Shard<K, V>) {
        Shard::new()
    }
}

} // verus!
