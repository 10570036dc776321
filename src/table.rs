//! One shard's storage, and the state transitions that its operations perform.
//!
//! A table maps each key to a shared value cell. The functions here run inside a
//! shard's critical section and are specified exactly over the table's view; the
//! `pub open spec fn`s name the transitions, and the shard's public operations promise
//! that each call performed one of them on the table as it stood at that instant.

use crate::error::Error;
use std::collections::HashMap;
use std::hash::Hash;
use std::sync::Arc;
use vstd::prelude::*;
use vstd::std_specs::hash::{obeys_key_model, spec_hash_map_iter};
use vstd::std_specs::iter::IteratorSpec;

verus! {

broadcast use vstd::std_specs::hash::group_hash_axioms, vstd::function::group_function_axioms;

/// The storage of one shard.
pub type Table<K, V> = HashMap<K, Arc<V>>;

/// `after` is `before` with `key` bound to a new cell that holds `value`; `r` is the
/// cell that `key` had before, if any.
pub open spec fn inserted<K, V>(
    before: Map<K, Arc<V>>,
    after: Map<K, Arc<V>>,
    key: K,
    value: V,
    r: Option<Arc<V>>,
) -> bool {
    &&& after.contains_key(key)
    &&& after == before.insert(key, after[key])
    &&& *after[key] == value
    &&& r == before.get(key)
}

/// `after` is `before` with `key` bound to the given `cell`; `r` is the cell that `key`
/// had before, if any.
pub open spec fn placed<K, V>(
    before: Map<K, Arc<V>>,
    after: Map<K, Arc<V>>,
    key: K,
    cell: Arc<V>,
    r: Option<Arc<V>>,
) -> bool {
    &&& after == before.insert(key, cell)
    &&& r == before.get(key)
}

/// `after` is `before` with every binding removed.
pub open spec fn cleared<K, V>(before: Map<K, Arc<V>>, after: Map<K, Arc<V>>) -> bool {
    after == Map::<K, Arc<V>>::empty()
}

/// `after` has exactly the bindings of `before`.
pub open spec fn unchanged<K, V>(before: Map<K, Arc<V>>, after: Map<K, Arc<V>>) -> bool {
    after == before
}

/// `after` is `before` without `key`; `r` is the cell that `key` had, if any.
pub open spec fn removed<K, V>(
    before: Map<K, Arc<V>>,
    after: Map<K, Arc<V>>,
    key: K,
    r: Option<Arc<V>>,
) -> bool {
    &&& after == before.remove(key)
    &&& r == before.get(key)
}

/// `after` is `before` without `key`; `r` is the stored key with its cell, if any.
pub open spec fn entry_removed<K, V>(
    before: Map<K, Arc<V>>,
    after: Map<K, Arc<V>>,
    key: K,
    r: Option<(K, Arc<V>)>,
) -> bool {
    &&& after == before.remove(key)
    &&& match r {
        Some(e) => before.contains_key(key) && e.0 == key && e.1 == before[key],
        None => !before.contains_key(key),
    }
}

/// A rename inside one table: it moves the cell of `old` to `new` when `old` is present
/// and `new` absent, and otherwise fails and leaves the table as it was.
pub open spec fn renamed<K, V>(
    before: Map<K, Arc<V>>,
    after: Map<K, Arc<V>>,
    old: K,
    new: K,
    r: Result<(), Error>,
) -> bool {
    if !before.contains_key(old) {
        r == Err::<(), Error>(Error::KeyNotFound) && after == before
    } else if before.contains_key(new) {
        r == Err::<(), Error>(Error::KeyAlreadyExists) && after == before
    } else {
        r == Ok::<(), Error>(()) && after == before.remove(old).insert(new, before[old])
    }
}

/// An update of `key`: when it is present its cell is replaced by the cell returned in
/// `r`; when it is absent nothing changes and `r` is `None`. What the new cell holds is
/// stated beside it, by the functions that take the mutator.
pub open spec fn updated<K, V>(
    before: Map<K, Arc<V>>,
    after: Map<K, Arc<V>>,
    key: K,
    r: Option<Arc<V>>,
) -> bool {
    if before.contains_key(key) {
        &&& after.contains_key(key)
        &&& r == Some(after[key])
        &&& after == before.insert(key, after[key])
    } else {
        r is None && after == before
    }
}

/// `key` keeps its cell when present, and is otherwise bound to the new cell `r`
/// that holds `value`; `r` is the cell bound to `key` afterwards.
pub open spec fn got_or_inserted<K, V>(
    before: Map<K, Arc<V>>,
    after: Map<K, Arc<V>>,
    key: K,
    value: V,
    r: Arc<V>,
) -> bool {
    if before.contains_key(key) {
        r == before[key] && after == before
    } else {
        *r == value && after == before.insert(key, r)
    }
}

/// `after` holds the keys of `before` on which `f` answered `true`, and no other: `f`
/// was called on each key of `before`, with its value or a clone of it.
pub open spec fn retained_by<K, V: Clone, F: FnMut(&K, &mut V) -> bool>(
    before: Map<K, Arc<V>>,
    after: Map<K, Arc<V>>,
    f: F,
) -> bool {
    &&& forall|k: K| #[trigger] after.contains_key(k) ==> before.contains_key(k)
    &&& forall|k: K|
        #[trigger] before.contains_key(k) ==> exists|v: &mut V|
            #[trigger] f.ensures((&k, v), after.contains_key(k)) && cloned(*before[k], *v)
}

/// `key` keeps its cell when present; otherwise it is bound to the new cell `r`, which
/// holds what `f` produced.
pub open spec fn got_or_made<K, V, F: FnOnce() -> V>(
    before: Map<K, Arc<V>>,
    after: Map<K, Arc<V>>,
    key: K,
    f: F,
    r: Arc<V>,
) -> bool {
    if before.contains_key(key) {
        r == before[key] && after == before
    } else {
        f.ensures((), *r) && after == before.insert(key, r)
    }
}

/// An insertion that only takes place when `key` is absent: `Ok` with the new cell, or
/// `Err` with the cell already there and no change.
pub open spec fn tried_insert<K, V>(
    before: Map<K, Arc<V>>,
    after: Map<K, Arc<V>>,
    key: K,
    value: V,
    r: Result<Arc<V>, Arc<V>>,
) -> bool {
    if before.contains_key(key) {
        r == Err::<Arc<V>, Arc<V>>(before[key]) && after == before
    } else {
        &&& r is Ok
        &&& *r->Ok_0 == value
        &&& after == before.insert(key, r->Ok_0)
    }
}

/// Relies on std's `HashMap::remove_entry`: removes `k` and hands back the stored key
/// together with its value.
#[verifier::external_body]
fn remove_entry<K: Hash + Eq, V>(m: &mut HashMap<K, V>, k: &K) -> (r: Option<(K, V)>)
    requires
        obeys_key_model::<K>(),
    ensures
        final(m)@ == old(m)@.remove(*k),
        match r {
            Some(e) => old(m)@.contains_key(*k) && e.0 == *k && e.1 == old(m)@[*k],
            None => !old(m)@.contains_key(*k),
        },
{
    m.remove_entry(k)
}

/// Relies on std's `HashMap::capacity`: the number of entries the map holds without
/// reallocating, never below its length.
#[verifier::external_body]
fn capacity_of<K, V>(m: &HashMap<K, V>) -> (r: usize)
    requires
        obeys_key_model::<K>(),
    ensures
        r >= m@.len(),
{
    m.capacity()
}

/// Relies on std's `HashMap::shrink_to_fit`: it releases memory and keeps the entries.
#[verifier::external_body]
fn shrink<K: Hash + Eq, V>(m: &mut HashMap<K, V>)
    ensures
        final(m)@ == old(m)@,
{
    m.shrink_to_fit()
}

/// Relies on std's `Arc::make_mut`: unique access to the cell's value, moving a clone of
/// the value into a fresh cell first when other handles share the cell.
#[verifier::external_body]
fn make_mut<V: Clone>(cell: &mut Arc<V>) -> (r: &mut V)
    ensures
        cloned(**old(cell), *r),
        **final(cell) == *final(r),
{
    Arc::make_mut(cell)
}

/// Relies on std's `HashMap::retain`: it calls `keep_entry` once on each entry, with
/// the key and the cell, and removes the entries for which it returns `false`; no key
/// is added, and a kept entry holds the cell as `keep_entry` left it. The predicate is
/// handed back; each call through `&mut` leaves it as it was, as vstd states of every
/// `FnMut` call (`axiom_fn_mut_call_ensures`).
#[verifier::external_body]
fn retain_entries<K, V: Clone, F: FnMut(&K, &mut V) -> bool>(m: &mut Table<K, V>, f: F) -> (r: F)
    requires
        forall|k: &K, v: &mut V| #[trigger] f.requires((k, v)),
    ensures
        r == f,
        forall|k: K| #[trigger] final(m)@.contains_key(k) ==> old(m)@.contains_key(k),
        forall|k: K|
            #[trigger] old(m)@.contains_key(k) ==> exists|v: &mut V|
                #[trigger] f.ensures((&k, v), final(m)@.contains_key(k)) && cloned(*old(m)@[k], *v)
                    && (final(m)@.contains_key(k) ==> *final(m)@[k] == *final(v)),
{
    let mut f = f;
    m.retain(|k, cell| keep_entry(&mut f, k, cell));
    f
}

/// One step of `retain`: makes the cell's value unique, copying it into a fresh cell
/// when readers still hold the old one, and asks `f` whether to keep the entry.
pub fn keep_entry<K, V: Clone, F: FnOnce(&K, &mut V) -> bool>(f: F, key: &K, cell: &mut Arc<V>) -> (r:
    bool)
    requires
        forall|k: &K, v: &mut V| #[trigger] f.requires((k, v)),
    ensures
        exists|v: &mut V|
            #[trigger] f.ensures((key, v), r) && cloned(**old(cell), *v) && **final(cell)
                == *final(v),
{
    let v = make_mut(cell);
    f(key, v)
}

/// An empty table with room for `capacity` entries.
pub fn new_table<K, V>(capacity: usize) -> (t: Table<K, V>)
    ensures
        t@ == Map::<K, Arc<V>>::empty(),
{
    HashMap::with_capacity(capacity)
}

/// Binds `key` to `cell`.
pub fn put<K: Hash + Eq, V>(t: &mut Table<K, V>, key: K, cell: Arc<V>) -> (r: Option<Arc<V>>)
    requires
        obeys_key_model::<K>(),
    ensures
        placed(old(t)@, final(t)@, key, cell, r),
{
    t.insert(key, cell)
}

/// The cell bound to `key`.
pub fn lookup<K: Hash + Eq, V>(t: &Table<K, V>, key: &K) -> (r: Option<Arc<V>>)
    requires
        obeys_key_model::<K>(),
    ensures
        r == t@.get(*key),
{
    match t.get(key) {
        Some(cell) => Some(cell.clone()),
        None => None,
    }
}

/// Whether `key` is bound.
pub fn holds<K: Hash + Eq, V>(t: &Table<K, V>, key: &K) -> (r: bool)
    requires
        obeys_key_model::<K>(),
    ensures
        r == t@.contains_key(*key),
{
    t.contains_key(key)
}

/// Unbinds `key`.
pub fn take<K: Hash + Eq, V>(t: &mut Table<K, V>, key: &K) -> (r: Option<Arc<V>>)
    requires
        obeys_key_model::<K>(),
    ensures
        removed(old(t)@, final(t)@, *key, r),
{
    t.remove(key)
}

/// Unbinds `key` and hands back the stored key with its cell.
pub fn take_entry<K: Hash + Eq, V>(t: &mut Table<K, V>, key: &K) -> (r: Option<(K, Arc<V>)>)
    requires
        obeys_key_model::<K>(),
    ensures
        entry_removed(old(t)@, final(t)@, *key, r),
{
    remove_entry(t, key)
}

/// Moves the cell of `old_key` to `new_key` in one step.
pub fn rename_in<K: Hash + Eq, V>(t: &mut Table<K, V>, old_key: &K, new_key: K) -> (r: Result<(), Error>)
    requires
        obeys_key_model::<K>(),
    ensures
        renamed(old(t)@, final(t)@, *old_key, new_key, r),
{
    if !t.contains_key(old_key) {
        return Err(Error::KeyNotFound);
    }
    if t.contains_key(&new_key) {
        return Err(Error::KeyAlreadyExists);
    }
    match t.remove(old_key) {
        Some(cell) => {
            t.insert(new_key, cell);
            Ok(())
        },
        None => Err(Error::KeyNotFound),
    }
}

/// Replaces the cell of `key`, when present, by one that holds the value after `f`.
/// The old cell is changed in place only when no reader holds it.
pub fn update_in<K: Hash + Eq, V: Clone, F: FnOnce(&mut V)>(t: &mut Table<K, V>, key: &K, f: F) -> (r:
    Option<Arc<V>>)
    requires
        obeys_key_model::<K>(),
        forall|v: &mut V| #[trigger] f.requires((v,)),
    ensures
        updated(old(t)@, final(t)@, *key, r),
        old(t)@.contains_key(*key) ==> exists|v: &mut V|
            #[trigger] f.ensures((v,), ()) && cloned(*old(t)@[*key], *v) && *final(v)
                == *final(t)@[*key],
{
    let ghost t0 = t@;
    match remove_entry(t, key) {
        Some(e) => {
            let (k, mut cell) = e;
            let v = make_mut(&mut cell);
            f(v);
            t.insert(k, cell.clone());
            assert(t@ =~= t0.insert(*key, t@[*key]));
            Some(cell)
        },
        None => {
            assert(t@ =~= t0);
            None
        },
    }
}

/// The cell of `key`, binding it first to a new cell that holds `value` when absent.
pub fn get_or_put<K: Hash + Eq, V>(t: &mut Table<K, V>, key: K, value: V) -> (r: Arc<V>)
    requires
        obeys_key_model::<K>(),
    ensures
        got_or_inserted(old(t)@, final(t)@, key, value, r),
{
    match t.get(&key) {
        Some(cell) => cell.clone(),
        None => {
            let cell = Arc::new(value);
            t.insert(key, cell.clone());
            cell
        },
    }
}

/// The cell of `key`, binding it first to a new cell that holds `f()` when absent;
/// `f` runs only then.
pub fn get_or_put_with<K: Hash + Eq, V, F: FnOnce() -> V>(t: &mut Table<K, V>, key: K, f: F) -> (r:
    Arc<V>)
    requires
        obeys_key_model::<K>(),
        f.requires(()),
    ensures
        got_or_made(old(t)@, final(t)@, key, f, r),
{
    match t.get(&key) {
        Some(cell) => cell.clone(),
        None => {
            let cell = Arc::new(f());
            t.insert(key, cell.clone());
            cell
        },
    }
}

/// Binds `key` to a new cell that holds `value` only when `key` is absent.
pub fn put_new<K: Hash + Eq, V>(t: &mut Table<K, V>, key: K, value: V) -> (r: Result<Arc<V>, Arc<V>>)
    requires
        obeys_key_model::<K>(),
    ensures
        tried_insert(old(t)@, final(t)@, key, value, r),
{
    match t.get(&key) {
        Some(cell) => Err(cell.clone()),
        None => {
            let cell = Arc::new(value);
            t.insert(key, cell.clone());
            Ok(cell)
        },
    }
}

/// Keeps only the entries for which `f` returns `true`; `f` may change a value, which
/// then moves into a fresh cell when readers still hold the old one.
pub fn retain_in<K, V: Clone, F: FnMut(&K, &mut V) -> bool>(t: &mut Table<K, V>, f: F) -> (r: F)
    requires
        forall|k: &K, v: &mut V| #[trigger] f.requires((k, v)),
    ensures
        r == f,
        retained_by(old(t)@, final(t)@, f),
        forall|k: K|
            #[trigger] final(t)@.contains_key(k) ==> exists|v: &mut V|
                #[trigger] f.ensures((&k, v), true) && cloned(*old(t)@[k], *v) && *final(t)@[k]
                    == *final(v),
        forall|k: K|
            #[trigger] old(t)@.contains_key(k) ==> exists|v: &mut V|
                #[trigger] f.ensures((&k, v), final(t)@.contains_key(k)) && cloned(*old(t)@[k], *v)
                    && (final(t)@.contains_key(k) ==> *final(t)@[k] == *final(v)),
{
    retain_entries(t, f)
}

/// The number of bound keys.
pub fn size<K, V>(t: &Table<K, V>) -> (r: usize)
    requires
        obeys_key_model::<K>(),
    ensures
        r == t@.len(),
{
    t.len()
}

/// Unbinds every key.
pub fn empty_out<K, V>(t: &mut Table<K, V>)
    ensures
        final(t)@ == Map::<K, Arc<V>>::empty(),
{
    t.clear()
}

/// How many entries the table holds before it must grow.
pub fn room<K, V>(t: &Table<K, V>) -> (r: usize)
    requires
        obeys_key_model::<K>(),
    ensures
        r >= t@.len(),
{
    capacity_of(t)
}

/// Releases spare memory; the bindings stay.
pub fn compact<K: Hash + Eq, V>(t: &mut Table<K, V>)
    ensures
        final(t)@ == old(t)@,
{
    shrink(t)
}

/// `r` lists the bindings of `t` whose keys are `keys`, in that order: each key once,
/// every key of `t`, each with a clone of the key and the very cell bound to it.
pub open spec fn listed_as<K: Clone, V>(t: Map<K, Arc<V>>, r: Seq<(K, Arc<V>)>, keys: Seq<K>) -> bool {
    &&& keys.len() == r.len()
    &&& keys.no_duplicates()
    &&& forall|i: int|
        0 <= i < r.len() ==> t.contains_key(#[trigger] keys[i]) && cloned(keys[i], r[i].0) && r[i].1
            == t[keys[i]]
    &&& forall|k: K| #[trigger] t.contains_key(k) ==> keys.contains(k)
}

/// `r` lists every binding of `t` exactly once, in some order.
pub open spec fn lists<K: Clone, V>(t: Map<K, Arc<V>>, r: Seq<(K, Arc<V>)>) -> bool {
    exists|keys: Seq<K>| #[trigger] listed_as(t, r, keys)
}

/// A copy of every binding: the key and a handle to its cell, one per bound key.
pub fn entries<K: Clone, V>(t: &Table<K, V>) -> (r: Vec<(K, Arc<V>)>)
    requires
        obeys_key_model::<K>(),
    ensures
        r@.len() == t@.len(),
        lists(t@, r@),
{
    let mut out: Vec<(K, Arc<V>)> = Vec::new();
    let ghost seq = spec_hash_map_iter(t).remaining();
    for e in it: t.iter()
        invariant
            out@.len() == it.index(),
            it.seq() == seq,
            seq == spec_hash_map_iter(t).remaining(),
            forall|j: int|
                0 <= j < out@.len() ==> cloned(*seq[j].0, #[trigger] out@[j].0) && out@[j].1
                    == *seq[j].1,
    {
        out.push((e.0.clone(), e.1.clone()));
    }
    proof {
        let keys = seq.map_values(|p: (&K, &Arc<V>)| *p.0);
        assert forall|i: int| 0 <= i < out@.len() implies t@.contains_key(#[trigger] keys[i])
            && cloned(keys[i], out@[i].0) && out@[i].1 == t@[keys[i]] by {
            assert(t@.contains_key(*seq[i].0));
        }
        assert forall|k: K| #[trigger] t@.contains_key(k) implies keys.contains(k) by {
            assert(seq.contains((&k, &t@[k])));
            let i = choose|i: int| 0 <= i < seq.len() && seq[i] == (&k, &t@[k]);
            assert(keys[i] == k);
        }
        assert forall|i: int, j: int| 0 <= i < keys.len() && 0 <= j < keys.len() && i != j
            implies keys[i] != keys[j] by {
            assert(t@.contains_key(*seq[i].0) && t@[*seq[i].0] == *seq[i].1);
            assert(t@.contains_key(*seq[j].0) && t@[*seq[j].0] == *seq[j].1);
        }
        assert(listed_as(t@, out@, keys));
    }
    out
}

} // verus!
