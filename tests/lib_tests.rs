use shardmap::{ShardMap, ShardMapBuilder};

#[test]
fn test_basic_operations() {
    let map = ShardMap::new();

    assert!(map.insert("key1", "value1").is_none());
    assert_eq!(map.insert("key1", "value2").unwrap().as_ref(), &"value1");
    assert_eq!(map.get(&"key1").unwrap().as_ref(), &"value2");
    assert!(map.get(&"nonexistent").is_none());
    assert_eq!(map.remove(&"key1").unwrap().as_ref(), &"value2");
    assert!(map.get(&"key1").is_none());
}

#[test]
fn test_rename() {
    let map = ShardMap::new();
    map.insert("old_key", "value");
    map.rename(&"old_key", "new_key").unwrap();
    assert!(map.get(&"old_key").is_none());
    assert_eq!(*map.get(&"new_key").unwrap(), "value");
}

#[test]
fn lib_test_update() {
    let map = ShardMap::new();
    map.insert("counter", 0);
    map.update(&"counter", |v| *v += 1);
    assert_eq!(*map.get(&"counter").unwrap(), 1);
}

#[test]
fn lib_test_stats() {
    let map = ShardMap::new();
    map.insert("key1", "value1");
    map.insert("key2", "value2");
    let stats = map.stats();
    assert_eq!(stats.size, 2);
}

#[test]
fn lib_test_builder() {
    let map = ShardMapBuilder::new()
        .shard_count(8)
        .unwrap()
        .build::<String, i32>()
        .unwrap();
    map.insert("test".to_string(), 42);
    assert_eq!(*map.get(&"test".to_string()).unwrap(), 42);
}

#[test]
fn test_shard_loads_and_diagnostics() {
    let map = ShardMap::new();
    map.insert("a", 1);
    map.insert("b", 2);
    let loads = map.shard_loads();
    assert_eq!(loads.len(), 16);
    assert_eq!(loads.iter().sum::<usize>(), 2);
    let diag = map.diagnostics();
    assert_eq!(diag.total_entries, 2);
    let ratio = diag.max_load_ratio();
    assert!(ratio.numerator as f64 / ratio.denominator as f64 >= 1.0);
}

#[test]
fn test_hash_and_by_hash() {
    let map = ShardMap::new();
    map.insert("k", 10);
    let h = map.hash_for_key(&"k");
    assert_eq!(map.shard_for_hash(h), map.shard_for_key(&"k"));
    assert_eq!(*map.get_by_hash(&"k", h).unwrap(), 10);
    assert_eq!(map.remove_by_hash(&"k", h).unwrap().as_ref(), &10);
    assert!(map.get(&"k").is_none());
}
