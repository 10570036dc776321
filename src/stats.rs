//! Per-shard operation counters, and the snapshots built from them.

use std::sync::atomic::{AtomicU64, Ordering};
use vstd::prelude::*;

verus! {

/// Per-shard operation statistics.
#[derive(Debug, Clone, Copy)]
pub struct ShardOps {
    /// Number of read operations on this shard.
    pub reads: u64,
    /// Number of write operations on this shard.
    pub writes: u64,
    /// Number of remove operations on this shard.
    pub removes: u64,
    /// Number of lock acquisitions.
    pub lock_acquisitions: u64,
    /// Cumulative lock wait time in nanoseconds (no build of this crate measures it).
    pub lock_wait_nanos: u64,
}

impl Default for ShardOps {
    fn default() -> (r: ShardOps)
        ensures
            r.reads == 0 && r.writes == 0 && r.removes == 0,
            r.lock_acquisitions == 0 && r.lock_wait_nanos == 0,
    {
        ShardOps { reads: 0, writes: 0, removes: 0, lock_acquisitions: 0, lock_wait_nanos: 0 }
    }
}

/// Thread-safe counters of a single shard. They are monitoring aids: each is updated
/// on its own, with no ordering relative to the others or to the shard's table.
pub struct ShardStats {
    reads: AtomicU64,
    writes: AtomicU64,
    removes: AtomicU64,
    lock_acquisitions: AtomicU64,
    lock_wait_nanos: AtomicU64,
}

impl ShardStats {
    /// Counters that all start at zero.
    pub fn new() -> (r: ShardStats) {
        ShardStats {
            reads: AtomicU64::new(0),
            writes: AtomicU64::new(0),
            removes: AtomicU64::new(0),
            lock_acquisitions: AtomicU64::new(0),
            lock_wait_nanos: AtomicU64::new(0),
        }
    }

    /// Counts one read that found its key.
    pub fn record_read(&self) {
        self.reads.fetch_add(1, Ordering::Relaxed);
    }

    /// Counts one write: a fresh insertion, an update or a completed rename.
    pub fn record_write(&self) {
        self.writes.fetch_add(1, Ordering::Relaxed);
    }

    /// Counts one removal that found its key.
    pub fn record_remove(&self) {
        self.removes.fetch_add(1, Ordering::Relaxed);
    }

    /// Counts one acquisition of the shard's lock.
    pub fn record_lock_acquisition(&self) {
        self.lock_acquisitions.fetch_add(1, Ordering::Relaxed);
    }

    /// Adds `nanos` to the time spent waiting for the shard's lock.
    pub fn record_lock_wait(&self, nanos: u64) {
        self.lock_wait_nanos.fetch_add(nanos, Ordering::Relaxed);
    }

    /// The counters' current values, each read on its own.
    pub fn snapshot(&self) -> (r: ShardOps) {
        ShardOps {
            reads: self.reads.load(Ordering::Relaxed),
            writes: self.writes.load(Ordering::Relaxed),
            removes: self.removes.load(Ordering::Relaxed),
            lock_acquisitions: self.lock_acquisitions.load(Ordering::Relaxed),
            lock_wait_nanos: self.lock_wait_nanos.load(Ordering::Relaxed),
        }
    }
}

impl Default for ShardStats {
    fn default() -> (r: ShardStats) {
        ShardStats::new()
    }
}

/// Aggregate statistics for a map.
#[derive(Debug, Clone)]
pub struct Stats {
    /// Total number of entries across all shards.
    pub size: usize,
    /// Number of entries in each shard.
    pub shard_sizes: Vec<usize>,
    /// Operation counts for each shard.
    pub operations: Vec<ShardOps>,
}

/// Per-shard diagnostics snapshot.
#[derive(Debug, Clone, Copy)]
pub struct ShardDiagnostics {
    /// Number of entries in this shard.
    pub entries: usize,
    /// Read operations.
    pub reads: u64,
    /// Write operations.
    pub writes: u64,
    /// Remove operations.
    pub removes: u64,
    /// Lock acquisitions.
    pub lock_acquisitions: u64,
    /// Cumulative lock wait time in nanoseconds.
    pub lock_wait_nanos: u64,
}

/// An exact non-negative ratio `numerator / denominator`, with a positive denominator.
#[derive(Debug, Clone, Copy, PartialEq, Eq, Structural)]
pub struct LoadRatio {
    /// The dividend.
    pub numerator: u128,
    /// The divisor, never zero.
    pub denominator: u128,
}

/// Structured snapshot for load introspection.
#[derive(Debug, Clone)]
pub struct Diagnostics {
    /// Total number of entries across all shards (saturating at `usize::MAX`).
    pub total_entries: usize,
    /// Per-shard diagnostics.
    pub shards: Vec<ShardDiagnostics>,
    /// Total read + write + remove operations (saturating at `u64::MAX`).
    pub total_operations: u64,
    /// The largest number of entries in one shard.
    pub max_shard_entries: usize,
}

/// The sum of the shards' entry counts.
pub open spec fn entries_sum(s: Seq<ShardDiagnostics>) -> int
    decreases s.len(),
{
    if s.len() == 0 {
        0
    } else {
        entries_sum(s.drop_last()) + s.last().entries
    }
}

/// The largest of the shards' entry counts, 0 when there is none.
pub open spec fn entries_max(s: Seq<ShardDiagnostics>) -> int
    decreases s.len(),
{
    if s.len() == 0 {
        0
    } else {
        let m = entries_max(s.drop_last());
        if s.last().entries > m {
            s.last().entries as int
        } else {
            m
        }
    }
}

/// The sum of the shards' read, write and remove counts.
pub open spec fn operations_sum(s: Seq<ShardDiagnostics>) -> int
    decreases s.len(),
{
    if s.len() == 0 {
        0
    } else {
        operations_sum(s.drop_last()) + s.last().reads + s.last().writes + s.last().removes
    }
}

/// `x` capped at `cap`.
pub open spec fn capped(x: int, cap: int) -> int {
    if x > cap {
        cap
    } else {
        x
    }
}

/// No shard holds more than the largest count, so together they hold at most that many
/// times the number of shards.
pub proof fn lemma_sum_at_most_max_times_len(s: Seq<ShardDiagnostics>)
    ensures
        0 <= entries_sum(s) <= entries_max(s) * s.len(),
        entries_max(s) >= 0,
    decreases s.len(),
{
    if s.len() > 0 {
        let init = s.drop_last();
        lemma_sum_at_most_max_times_len(init);
        let m0 = entries_max(init);
        let m = entries_max(s);
        let n = init.len();
        assert(m0 <= m);
        assert(m0 * n <= m * n) by (nonlinear_arith)
            requires
                m0 <= m,
                n >= 0,
        ;
        assert(m * n + m == m * (n + 1)) by (nonlinear_arith);
    }
}

impl Diagnostics {
    /// The aggregates are the ones derived from the per-shard snapshots.
    pub open spec fn consistent(&self) -> bool {
        &&& self.total_entries == capped(entries_sum(self.shards@), usize::MAX as int)
        &&& self.max_shard_entries == entries_max(self.shards@)
        &&& self.total_operations == capped(operations_sum(self.shards@), u64::MAX as int)
    }

    /// Derives the aggregates from the per-shard snapshots.
    pub fn from_shards(shards: Vec<ShardDiagnostics>) -> (r: Diagnostics)
        ensures
            r.consistent(),
            r.shards@ == shards@,
            r.total_entries == capped(entries_sum(shards@), usize::MAX as int),
            r.max_shard_entries == entries_max(shards@),
            r.total_operations == capped(operations_sum(shards@), u64::MAX as int),
    {
        let mut total: usize = 0;
        let mut max: usize = 0;
        let mut ops: u64 = 0;
        let mut i: usize = 0;
        while i < shards.len()
            invariant
                i <= shards@.len(),
                total == capped(entries_sum(shards@.take(i as int)), usize::MAX as int),
                max == entries_max(shards@.take(i as int)),
                ops == capped(operations_sum(shards@.take(i as int)), u64::MAX as int),
            decreases shards@.len() - i,
        {
            let s = shards[i];
            proof {
                assert(shards@.take(i + 1).drop_last() =~= shards@.take(i as int));
                assert(shards@.take(i + 1).last() == s);
            }
            total = total.saturating_add(s.entries);
            if s.entries > max {
                max = s.entries;
            }
            ops = ops.saturating_add(s.reads).saturating_add(s.writes).saturating_add(s.removes);
            i = i + 1;
        }
        proof {
            assert(shards@.take(i as int) =~= shards@);
        }
        Diagnostics { total_entries: total, shards, total_operations: ops, max_shard_entries: max }
    }

    /// The average number of entries per shard, `total_entries / shard count`
    /// (`0 / 1` when there is no shard).
    pub fn avg_load_per_shard(&self) -> (r: LoadRatio)
        ensures
            self.shards@.len() == 0 ==> r == (LoadRatio { numerator: 0, denominator: 1 }),
            self.shards@.len() > 0 ==> r == (LoadRatio {
                numerator: self.total_entries as u128,
                denominator: self.shards@.len() as u128,
            }),
    {
        if self.shards.len() == 0 {
            LoadRatio { numerator: 0, denominator: 1 }
        } else {
            LoadRatio { numerator: self.total_entries as u128, denominator: self.shards.len() as u128 }
        }
    }

    /// The most loaded shard's entries over the average per shard, that is
    /// `max_shard_entries * shard count / total_entries`; `1 / 1` when the average is zero.
    pub fn max_load_ratio(&self) -> (r: LoadRatio)
        ensures
            self.total_entries == 0 || self.shards@.len() == 0 ==> r == (LoadRatio {
                numerator: 1,
                denominator: 1,
            }),
            self.total_entries > 0 && self.shards@.len() > 0 ==> r == (LoadRatio {
                numerator: (self.max_shard_entries as int * self.shards@.len()) as u128,
                denominator: self.total_entries as u128,
            }),
            self.consistent() ==> r.numerator >= r.denominator,
    {
        if self.total_entries == 0 || self.shards.len() == 0 {
            LoadRatio { numerator: 1, denominator: 1 }
        } else {
            let n = self.shards.len() as u128;
            let m = self.max_shard_entries as u128;
            proof {
                lemma_sum_at_most_max_times_len(self.shards@);
                assert(m * n <= u64::MAX as int * u64::MAX as int) by (nonlinear_arith)
                    requires m <= u64::MAX, n <= u64::MAX;
            }
            LoadRatio { numerator: m * n, denominator: self.total_entries as u128 }
        }
    }
}

} // verus!
