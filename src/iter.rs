//! The two ways to walk a map: over a snapshot, or shard by shard as the walk goes.

use crate::shard::Shard;
use crate::shardmap::total_len;
use crate::table::lists;
use std::hash::Hash;
use std::sync::Arc;
use vstd::prelude::*;
use vstd::std_specs::hash::obeys_key_model;

verus! {

/// `items` is the concatenation of `parts`, and each part lists every binding of the
/// matching table of `obs` exactly once.
pub open spec fn snapshot_of<K: Clone, V>(
    obs: Seq<Map<K, Arc<V>>>,
    parts: Seq<Seq<(K, Arc<V>)>>,
    items: Seq<(K, Arc<V>)>,
) -> bool {
    &&& parts.len() == obs.len()
    &&& forall|i: int| 0 <= i < obs.len() ==> #[trigger] lists(obs[i], parts[i])
    &&& items == parts.flatten_alt()
}

/// A walk over a copy of the map's entries, taken when the walk was made.
///
/// It is not affected by later changes to the map, and does not block writers.
pub struct SnapshotIter<K, V> {
    entries: Vec<(K, Arc<V>)>,
    index: usize,
}

impl<K: Hash + Eq + Clone, V> SnapshotIter<K, V> {
    /// The walk's position lies within its entries.
    pub closed spec fn wf(&self) -> bool {
        self.index <= self.entries@.len()
    }

    /// How many entries the walk has yet to yield.
    pub closed spec fn remaining(&self) -> nat {
        (self.entries@.len() - self.index) as nat
    }

    /// Every entry of the walk, in the order it yields them.
    pub closed spec fn items(&self) -> Seq<(K, Arc<V>)> {
        self.entries@
    }

    /// How many entries the walk has yielded.
    pub closed spec fn position(&self) -> nat {
        self.index as nat
    }

    /// Copies the entries of each shard in turn, each under its read lock.
    pub(crate) fn new(shards: &[Shard<K, V>]) -> (r: SnapshotIter<K, V>)
        requires
            obeys_key_model::<K>(),
        ensures
            r.wf(),
            r.position() == 0,
            exists|obs: Seq<Map<K, Arc<V>>>|
                obs.len() == shards@.len() && r.remaining() == #[trigger] total_len(obs),
            exists|obs: Seq<Map<K, Arc<V>>>, parts: Seq<Seq<(K, Arc<V>)>>|
                #[trigger] snapshot_of(obs, parts, r.items()) && obs.len() == shards@.len(),
    {
        let mut entries: Vec<(K, Arc<V>)> = Vec::new();
        let ghost mut obs: Seq<Map<K, Arc<V>>> = Seq::empty();
        let ghost mut parts: Seq<Seq<(K, Arc<V>)>> = Seq::empty();
        let mut i: usize = 0;
        while i < shards.len()
            invariant
                i <= shards@.len(),
                obeys_key_model::<K>(),
                obs.len() == i,
                entries@.len() == total_len(obs),
                snapshot_of(obs, parts, entries@),
            decreases shards@.len() - i,
        {
            let mut part = shards[i].entries();
            let ghost t = choose|t: Map<K, Arc<V>>| part@.len() == t.len() && #[trigger] lists(t, part@);
            let ghost p = part@;
            let ghost before = entries@;
            entries.append(&mut part);
            proof {
                let next = obs.push(t);
                let next_parts = parts.push(p);
                assert(next.drop_last() =~= obs);
                assert(next_parts.drop_last() =~= parts);
                assert(entries@ =~= before + p);
                obs = next;
                parts = next_parts;
            }
            i = i + 1;
        }
        let r = SnapshotIter { entries, index: 0 };
        assert(snapshot_of(obs, parts, r.items()));
        r
    }

    /// The next entry, or `None` once all have been yielded.
    pub fn next(&mut self) -> (r: Option<(K, Arc<V>)>)
        requires
            old(self).wf(),
        ensures
            final(self).wf(),
            final(self).items() == old(self).items(),
            old(self).remaining() == 0 ==> r is None && final(self).position() == old(self).position(),
            old(self).remaining() > 0 ==> {
                let e = old(self).items()[old(self).position() as int];
                &&& r is Some
                &&& cloned(e.0, r->Some_0.0)
                &&& r->Some_0.1 == e.1
                &&& final(self).position() == old(self).position() + 1
            },
    {
        if self.index < self.entries.len() {
            let e = &self.entries[self.index];
            let item = (e.0.clone(), e.1.clone());
            self.index = self.index + 1;
            Some(item)
        } else {
            None
        }
    }

    /// The number of entries left, as a lower and an exact upper bound.
    pub fn size_hint(&self) -> (r: (usize, Option<usize>))
        requires
            self.wf(),
        ensures
            r.0 == self.remaining(),
            r.1 == Some(r.0),
    {
        let remaining = self.entries.len() - self.index;
        (remaining, Some(remaining))
    }

    /// The number of entries left.
    pub fn len(&self) -> (r: usize)
        requires
            self.wf(),
        ensures
            r == self.remaining(),
    {
        self.entries.len() - self.index
    }
}

/// A walk that copies one shard at a time, under its read lock, when it reaches it.
///
/// It shows changes made to shards it has not reached yet, and may miss or see twice
/// an entry that moves between shards during the walk. It never holds more than one
/// lock, and only while it copies.
#[verifier::reject_recursive_types(K)]
#[verifier::reject_recursive_types(V)]
pub struct ConcurrentIter<'a, K, V> {
    shards: &'a [Shard<K, V>],
    current_shard: usize,
    buffer: Vec<(K, Arc<V>)>,
    buffer_index: usize,
}

impl<'a, K: Hash + Eq + Clone, V> ConcurrentIter<'a, K, V> {
    /// The walk's positions lie within the shards and within the buffer.
    pub closed spec fn wf(&self) -> bool {
        &&& self.current_shard <= self.shards@.len()
        &&& self.buffer_index <= self.buffer@.len()
    }

    /// The number of shards the walk has not reached yet.
    pub closed spec fn shards_left(&self) -> nat {
        (self.shards@.len() - self.current_shard) as nat
    }

    /// The number of buffered entries not yielded yet.
    pub closed spec fn buffered(&self) -> nat {
        (self.buffer@.len() - self.buffer_index) as nat
    }

    /// The entries copied from the shard read last.
    pub closed spec fn buffer(&self) -> Seq<(K, Arc<V>)> {
        self.buffer@
    }

    /// How many buffered entries have been yielded.
    pub closed spec fn buffer_position(&self) -> nat {
        self.buffer_index as nat
    }

    /// The index of the next shard to read.
    pub closed spec fn next_shard(&self) -> nat {
        self.current_shard as nat
    }

    /// The number of shards the walk covers.
    pub closed spec fn shard_total(&self) -> nat {
        self.shards@.len()
    }

    /// A walk that starts before the first shard.
    pub(crate) fn new(shards: &'a [Shard<K, V>]) -> (r: ConcurrentIter<'a, K, V>)
        ensures
            r.wf(),
            r.shards_left() == shards@.len(),
            r.buffered() == 0,
    {
        ConcurrentIter { shards, current_shard: 0, buffer: Vec::new(), buffer_index: 0 }
    }

    /// Copies the next non-empty shard into the buffer; `false` when none is left.
    fn fill_buffer(&mut self) -> (r: bool)
        requires
            old(self).wf(),
            obeys_key_model::<K>(),
        ensures
            final(self).wf(),
            final(self).shard_total() == old(self).shard_total(),
            final(self).buffer_position() == 0,
            final(self).shards_left() <= old(self).shards_left(),
            r ==> final(self).buffered() > 0 && final(self).shards_left() < old(self).shards_left(),
            r ==> exists|t: Map<K, Arc<V>>| t.len() > 0 && #[trigger] lists(t, final(self).buffer()),
            r ==> exists|skipped: Seq<Map<K, Arc<V>>>|
                skipped.len() + 1 == final(self).next_shard() - old(self).next_shard() && #[trigger] total_len(skipped) == 0,
            !r ==> final(self).shards_left() == 0 && final(self).buffered() == 0,
            !r ==> exists|skipped: Seq<Map<K, Arc<V>>>|
                skipped.len() == final(self).next_shard() - old(self).next_shard() && #[trigger] total_len(skipped) == 0,
    {
        self.buffer.clear();
        self.buffer_index = 0;
        let ghost mut skipped: Seq<Map<K, Arc<V>>> = Seq::empty();
        while self.current_shard < self.shards.len()
            invariant
                self.current_shard <= self.shards@.len(),
                self.current_shard >= old(self).current_shard,
                self.buffer_index == 0,
                self.buffer@.len() == 0,
                self.shards == old(self).shards,
                obeys_key_model::<K>(),
                skipped.len() == self.current_shard - old(self).current_shard,
                total_len(skipped) == 0,
            decreases self.shards@.len() - self.current_shard,
        {
            let part = self.shards[self.current_shard].entries();
            let ghost t = choose|t: Map<K, Arc<V>>| part@.len() == t.len() && #[trigger] lists(t, part@);
            self.current_shard = self.current_shard + 1;
            if part.len() > 0 {
                self.buffer = part;
                assert(t.len() > 0 && lists(t, self.buffer()));
                return true;
            }
            proof {
                let next = skipped.push(t);
                assert(next.drop_last() =~= skipped);
                skipped = next;
            }
        }
        false
    }

    /// The next entry, or `None` once every shard has been walked.
    pub fn next(&mut self) -> (r: Option<(K, Arc<V>)>)
        requires
            old(self).wf(),
            obeys_key_model::<K>(),
        ensures
            final(self).wf(),
            final(self).shard_total() == old(self).shard_total(),
            old(self).buffered() > 0 ==> r is Some && final(self).buffer() == old(self).buffer()
                && final(self).next_shard() == old(self).next_shard(),
            r is None ==> final(self).shards_left() == 0 && final(self).buffered() == 0,
            old(self).buffered() == 0 && r is Some ==> final(self).buffer_position() == 1
                && final(self).next_shard() > old(self).next_shard(),
            old(self).buffered() == 0 && r is Some ==> exists|t: Map<K, Arc<V>>|
                t.len() > 0 && #[trigger] lists(t, final(self).buffer()),
            old(self).buffered() == 0 && r is Some ==> exists|skipped: Seq<Map<K, Arc<V>>>|
                skipped.len() + 1 == final(self).next_shard() - old(self).next_shard() && #[trigger] total_len(skipped) == 0,
            old(self).buffered() == 0 && r is None ==> exists|skipped: Seq<Map<K, Arc<V>>>|
                skipped.len() == final(self).next_shard() - old(self).next_shard() && #[trigger] total_len(skipped) == 0,
            r matches Some(e) ==> {
                let p = final(self).buffer_position() - 1;
                &&& 0 <= p < final(self).buffer().len()
                &&& cloned(final(self).buffer()[p].0, e.0)
                &&& e.1 == final(self).buffer()[p].1
            },
    {
        let ghost mut filled: Option<Map<K, Arc<V>>> = None;
        if self.buffer_index >= self.buffer.len() {
            if !self.fill_buffer() {
                return None;
            }
            proof {
                filled = Some(choose|t: Map<K, Arc<V>>| t.len() > 0 && #[trigger] lists(t, self.buffer()));
            }
        }
        let i = self.buffer_index;
        let len = self.buffer.len();
        assert(i < len);
        let e = &self.buffer[i];
        let item = (e.0.clone(), e.1.clone());
        self.buffer_index = i + 1;
        proof {
            if let Some(t) = filled {
                assert(t.len() > 0 && lists(t, self.buffer()));
            }
        }
        Some(item)
    }
}

} // verus!
