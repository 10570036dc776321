use shardmap::shardmap::{all_zero, total_of};
use shardmap::config::{check_shard_count, masked};
use shardmap::{
    Config, DefaultRouter, Diagnostics, Error, HashFunction, LoadRatio, RoutingConfig,
    ShardDiagnostics, ShardMap, ShardMapBuilder, ShardRouter,
};
use std::sync::Arc;

struct EverythingToZero;

impl ShardRouter for EverythingToZero {
    fn route(&self, _key_hash: u64, _shard_count: usize) -> usize {
        0
    }
}

fn single_shard_map(shards: usize) -> ShardMap<String, i32> {
    ShardMapBuilder::new()
        .shard_count(shards)
        .unwrap()
        .routing(RoutingConfig::Custom(Box::new(EverythingToZero)))
        .build::<String, i32>()
        .unwrap()
}

fn diag(entries: usize, reads: u64, writes: u64, removes: u64) -> ShardDiagnostics {
    ShardDiagnostics { entries, reads, writes, removes, lock_acquisitions: 0, lock_wait_nanos: 0 }
}

#[test]
fn insert_then_get_then_remove() {
    let map = ShardMap::new();
    assert!(map.insert("k".to_string(), 7).is_none());
    assert_eq!(map.get(&"k".to_string()).as_deref(), Some(&7));
    assert_eq!(map.remove(&"k".to_string()).as_deref(), Some(&7));
    assert!(map.get(&"k".to_string()).is_none());
    assert!(!map.contains_key(&"k".to_string()));
}

#[test]
fn second_insert_returns_first_value() {
    let map = ShardMap::new();
    map.insert("k", "v1");
    assert_eq!(map.insert("k", "v2").as_deref(), Some(&"v1"));
    assert_eq!(map.get(&"k").as_deref(), Some(&"v2"));
    assert_eq!(map.len(), 1);
}

#[test]
fn rename_within_one_shard_is_all_or_nothing() {
    let map = single_shard_map(4);
    map.insert("old".to_string(), 1);
    map.insert("taken".to_string(), 2);

    assert_eq!(map.rename(&"old".to_string(), "taken".to_string()), Err(Error::KeyAlreadyExists));
    assert_eq!(map.get(&"old".to_string()).as_deref(), Some(&1));
    assert_eq!(map.get(&"taken".to_string()).as_deref(), Some(&2));

    assert_eq!(map.rename(&"missing".to_string(), "new".to_string()), Err(Error::KeyNotFound));
    assert!(map.get(&"new".to_string()).is_none());

    let cell = map.get(&"old".to_string()).unwrap();
    assert_eq!(map.rename(&"old".to_string(), "new".to_string()), Ok(()));
    assert!(map.get(&"old".to_string()).is_none());
    let moved = map.get(&"new".to_string()).unwrap();
    assert!(Arc::ptr_eq(&cell, &moved));
    assert_eq!(map.len(), 2);
    assert_eq!(map.shard_loads()[0], 2);
}

fn two_keys_on_different_shards(map: &ShardMap<String, i32>) -> (String, String) {
    let first = "key_0".to_string();
    let shard = map.shard_for_key(&first);
    let mut i = 1;
    loop {
        let other = format!("key_{}", i);
        if map.shard_for_key(&other) != shard {
            return (first, other);
        }
        i += 1;
    }
}

#[test]
fn rename_across_shards_moves_the_same_cell() {
    let map = ShardMap::with_shard_count(2).unwrap();
    let (old, new) = two_keys_on_different_shards(&map);
    map.insert(old.clone(), 5);
    let cell = map.get(&old).unwrap();

    assert_eq!(map.rename(&old, new.clone()), Ok(()));
    assert!(map.get(&old).is_none());
    let moved = map.get(&new).unwrap();
    assert!(Arc::ptr_eq(&cell, &moved));
    assert_eq!(map.len(), 1);
}

#[test]
fn rename_across_shards_onto_present_key_changes_nothing() {
    let map = ShardMap::with_shard_count(2).unwrap();
    let (old, new) = two_keys_on_different_shards(&map);
    map.insert(old.clone(), 1);
    map.insert(new.clone(), 2);

    assert_eq!(map.rename(&old, new.clone()), Err(Error::KeyAlreadyExists));
    assert_eq!(map.get(&old).as_deref(), Some(&1));
    assert_eq!(map.get(&new).as_deref(), Some(&2));
    assert_eq!(map.len(), 2);
}

#[test]
fn rename_across_shards_of_missing_key_changes_nothing() {
    let map = ShardMap::with_shard_count(2).unwrap();
    let (old, new) = two_keys_on_different_shards(&map);
    assert_eq!(map.rename(&old, new.clone()), Err(Error::KeyNotFound));
    assert!(map.is_empty());
}

#[test]
fn rename_a_to_z2_among_26_keys() {
    let map = ShardMap::with_shard_count(4).unwrap();
    for c in b'a'..=b'z' {
        map.insert((c as char).to_string(), c as i32);
    }
    assert_eq!(map.len(), 26);
    assert_eq!(map.rename(&"a".to_string(), "z2".to_string()), Ok(()));
    assert!(map.get(&"a".to_string()).is_none());
    assert_eq!(map.get(&"z2".to_string()).as_deref(), Some(&(b'a' as i32)));
    assert_eq!(map.len(), 26);
}

#[test]
fn rename_x_onto_y_with_two_shards_fails() {
    let map = ShardMap::with_shard_count(2).unwrap();
    map.insert("x".to_string(), 1);
    map.insert("y".to_string(), 2);
    assert_eq!(map.rename(&"x".to_string(), "y".to_string()), Err(Error::KeyAlreadyExists));
    assert_eq!(map.get(&"x".to_string()).as_deref(), Some(&1));
    assert_eq!(map.get(&"y".to_string()).as_deref(), Some(&2));
}

#[test]
fn unique_inserts_are_all_counted() {
    let map = ShardMap::with_shard_count(8).unwrap();
    let n = 500;
    for i in 0..n {
        assert!(map.insert(format!("unique_{}", i), i).is_none());
    }
    let loads = map.shard_loads();
    assert_eq!(loads.len(), 8);
    assert_eq!(loads.iter().sum::<usize>(), n as usize);
    assert_eq!(map.len(), n as usize);
    let d = map.diagnostics();
    assert_eq!(d.total_entries, n as usize);
    assert_eq!(d.max_shard_entries, *loads.iter().max().unwrap());
    assert_eq!(map.stats().size, n as usize);
}

#[test]
fn shard_for_key_is_stable_and_matches_routing() {
    let map: ShardMap<String, i32> = ShardMap::with_shard_count(16).unwrap();
    for i in 0..100 {
        let k = format!("k{}", i);
        let s = map.shard_for_key(&k);
        assert_eq!(s, map.shard_for_key(&k));
        assert!(s < 16);
        assert_eq!(s, (map.hash_for_key(&k) as usize) & 15);
        assert_eq!(s, map.shard_for_hash(map.hash_for_key(&k)));
    }
}

#[test]
fn default_router_takes_the_low_bits() {
    assert_eq!(DefaultRouter.route(13, 8), 5);
    assert_eq!(DefaultRouter.route(u64::MAX, 16), 15);
    assert_eq!(DefaultRouter.route(7, 1), 0);
    assert_eq!(masked(0b1010_1100, 4), 0);
    assert_eq!(masked(0b1010_1101, 4), 1);
}

#[test]
fn shard_counts_must_be_powers_of_two() {
    assert!(check_shard_count(1));
    assert!(check_shard_count(2));
    assert!(check_shard_count(64));
    assert!(!check_shard_count(0));
    assert!(!check_shard_count(3));
    assert!(!check_shard_count(12));
    assert_eq!(ShardMap::<String, i32>::with_shard_count(3).err(), Some(Error::InvalidShardCount));
    assert_eq!(ShardMap::<String, i32>::with_shard_count(0).err(), Some(Error::InvalidShardCount));
    assert!(Config::new().shard_count(6).is_err());
    assert!(ShardMap::<String, i32>::with_shard_count(1).is_ok());
}

#[test]
fn error_messages() {
    assert_eq!(Error::KeyNotFound.message(), "key not found");
    assert_eq!(Error::KeyAlreadyExists.message(), "key already exists");
    assert_eq!(
        Error::InvalidShardCount.message(),
        "shard count must be a power of two and greater than 0"
    );
}

#[test]
fn try_insert_and_get_or_insert() {
    let map = ShardMap::new();
    assert_eq!(map.try_insert("k", 1).map(|c| *c), Ok(1));
    assert_eq!(map.try_insert("k", 2).map_err(|c| *c), Err(1));
    assert_eq!(*map.get_or_insert("k", 3), 1);
    assert_eq!(*map.get_or_insert("j", 4), 4);
    let mut calls = 0;
    assert_eq!(
        *map.get_or_insert_with("j", || {
            calls += 1;
            5
        }),
        4
    );
    assert_eq!(calls, 0);
    assert_eq!(*map.get_or_insert_with("i", || 6), 6);
    assert_eq!(map.len(), 3);
}

#[test]
fn update_leaves_earlier_handles_alone() {
    let map = ShardMap::new();
    map.insert("n", 1);
    let before = map.get(&"n").unwrap();
    let after = map.update(&"n", |v| *v *= 10).unwrap();
    assert_eq!(*before, 1);
    assert_eq!(*after, 10);
    assert_eq!(*map.get(&"n").unwrap(), 10);
    assert!(map.update(&"missing", |v| *v += 1).is_none());
    assert!(map.get(&"missing").is_none());
}

#[test]
fn retain_keeps_and_changes_values() {
    let map = ShardMap::new();
    for i in 0..20 {
        map.insert(i, i);
    }
    map.retain(|_k, v| {
        *v += 100;
        *v % 2 == 0
    });
    assert_eq!(map.len(), 10);
    assert_eq!(*map.get(&4).unwrap(), 104);
    assert!(map.get(&5).is_none());
}

#[test]
fn clear_capacity_and_shrink() {
    let map = ShardMap::with_capacity(1000);
    assert!(map.capacity() >= 1000);
    for i in 0..100 {
        map.insert(i, i);
    }
    for i in 0..90 {
        map.remove(&i);
    }
    map.shrink_to_fit();
    assert_eq!(map.len(), 10);
    assert_eq!(*map.get(&95).unwrap(), 95);
    assert!(map.capacity() >= 10);
    map.clear();
    assert!(map.is_empty());
    assert_eq!(map.len(), 0);
}

#[test]
fn fxhash_is_deterministic_across_maps() {
    let a: ShardMap<String, i32> = ShardMapBuilder::new()
        .hash_function(HashFunction::FxHash)
        .build()
        .unwrap();
    let b: ShardMap<String, i32> = ShardMapBuilder::new()
        .hash_function(HashFunction::FxHash)
        .capacity_per_shard(4)
        .build()
        .unwrap();
    let k = "some key".to_string();
    assert_eq!(a.hash_for_key(&k), b.hash_for_key(&k));
    assert_ne!(a.hash_for_key(&k), a.hash_for_key(&"other key".to_string()));
    a.insert(k.clone(), 1);
    assert_eq!(*a.get(&k).unwrap(), 1);
}

#[test]
fn ahash_digests_differ_for_different_keys() {
    let map: ShardMap<&str, i32> = ShardMap::new();
    assert_ne!(map.hash_for_key(&"a"), map.hash_for_key(&"b"));
    assert_eq!(map.hash_for_key(&"a"), map.hash_for_key(&"a"));
}

#[test]
fn load_ratio_of_a_skewed_map() {
    let map = single_shard_map(4);
    map.insert("a".to_string(), 1);
    map.insert("b".to_string(), 2);
    let d = map.diagnostics();
    assert_eq!(d.total_entries, 2);
    assert_eq!(d.max_shard_entries, 2);
    assert_eq!(d.max_load_ratio(), LoadRatio { numerator: 8, denominator: 2 });
    assert_eq!(d.avg_load_per_shard(), LoadRatio { numerator: 2, denominator: 4 });
}

#[test]
fn load_ratio_of_an_empty_map_is_one() {
    let map: ShardMap<String, i32> = ShardMap::new();
    let d = map.diagnostics();
    assert_eq!(d.total_entries, 0);
    assert_eq!(d.max_load_ratio(), LoadRatio { numerator: 1, denominator: 1 });
    assert_eq!(d.avg_load_per_shard(), LoadRatio { numerator: 0, denominator: 16 });
}

#[test]
fn diagnostics_aggregate_exactly() {
    let d = Diagnostics::from_shards(vec![diag(3, 1, 2, 3), diag(5, 10, 20, 30), diag(0, 0, 0, 0)]);
    assert_eq!(d.total_entries, 8);
    assert_eq!(d.max_shard_entries, 5);
    assert_eq!(d.total_operations, 66);
    assert_eq!(d.max_load_ratio(), LoadRatio { numerator: 15, denominator: 8 });
    let none = Diagnostics::from_shards(vec![]);
    assert_eq!(none.avg_load_per_shard(), LoadRatio { numerator: 0, denominator: 1 });
    let big = Diagnostics::from_shards(vec![diag(usize::MAX, u64::MAX, 1, 0), diag(1, 1, 0, 0)]);
    assert_eq!(big.total_entries, usize::MAX);
    assert_eq!(big.total_operations, u64::MAX);
}

#[test]
fn counters_record_hits() {
    let map = single_shard_map(2);
    map.insert("a".to_string(), 1);
    map.insert("a".to_string(), 2);
    map.get(&"a".to_string());
    map.get(&"zz".to_string());
    map.remove(&"a".to_string());
    let ops = map.stats().operations[0];
    assert_eq!(ops.writes, 1);
    assert_eq!(ops.reads, 1);
    assert_eq!(ops.removes, 1);
    assert!(ops.lock_acquisitions >= 5);
    assert_eq!(ops.lock_wait_nanos, 0);
}

#[test]
fn snapshot_ignores_later_changes() {
    let map = ShardMap::new();
    map.insert(1, "one");
    map.insert(2, "two");
    let mut snap = map.iter_snapshot();
    map.insert(3, "three");
    map.remove(&1);
    assert_eq!(snap.len(), 2);
    assert_eq!(snap.size_hint(), (2, Some(2)));
    let mut keys = Vec::new();
    while let Some((k, _)) = snap.next() {
        keys.push(k);
    }
    keys.sort();
    assert_eq!(keys, vec![1, 2]);
    assert_eq!(snap.len(), 0);
    assert!(snap.next().is_none());
}

#[test]
fn concurrent_walk_sees_shards_not_yet_reached() {
    let map = single_shard_map(4);
    let mut walk = map.iter_concurrent();
    map.insert("late".to_string(), 9);
    let first = walk.next().unwrap();
    assert_eq!(first.0, "late");
    assert_eq!(*first.1, 9);
    assert!(walk.next().is_none());
    assert!(walk.next().is_none());
}

#[test]
fn keep_entry_copies_a_shared_cell() {
    let mut cell = Arc::new(1);
    let held = Arc::clone(&cell);
    let kept = shardmap::table::keep_entry(
        |_k: &i32, v: &mut i32| {
            *v += 1;
            *v > 1
        },
        &0,
        &mut cell,
    );
    assert!(kept);
    assert_eq!(*cell, 2);
    assert_eq!(*held, 1);
    assert!(!Arc::ptr_eq(&cell, &held));
}

#[test]
fn large_shard_counts_are_checked_exactly() {
    assert!(check_shard_count(1usize << 40));
    assert!(!check_shard_count((1usize << 40) + 1));
    assert!(!check_shard_count(usize::MAX));
    assert!(check_shard_count(1usize << (usize::BITS - 1)));
}

#[test]
fn retain_sees_every_entry_once() {
    let map = ShardMap::with_shard_count(4).unwrap();
    for i in 0..40 {
        map.insert(i, i);
    }
    let mut seen = 0;
    map.retain(|_k, _v| {
        seen += 1;
        false
    });
    assert_eq!(seen, 40);
    assert!(map.is_empty());
}

#[test]
fn totals_of_counts() {
    assert_eq!(total_of(&vec![]), 0);
    assert_eq!(total_of(&vec![1, 2, 3]), 6);
    assert_eq!(total_of(&vec![usize::MAX, 1]), usize::MAX);
    assert!(all_zero(&vec![]));
    assert!(all_zero(&vec![0, 0, 0]));
    assert!(!all_zero(&vec![0, 4, 0]));
}

#[test]
fn a_new_map_is_empty_on_every_shard() {
    let map: ShardMap<String, i32> = ShardMapBuilder::new().shard_count(8).unwrap().build().unwrap();
    assert_eq!(map.shard_loads(), vec![0; 8]);
    assert!(map.is_empty());
    assert_eq!(map.len(), 0);
    map.insert("a".to_string(), 1);
    assert!(!map.is_empty());
    map.clear();
    assert!(map.is_empty());
}
