use shardmap::ShardMap;
use std::sync::Arc;

#[test]
fn test_stress_memory_usage() {
    let map = Arc::new(ShardMap::new());

    for round in 0..10 {
        for i in 0..10000 {
            let key = format!("round_{}_key_{}", round, i);
            map.insert(key, i);
        }

        for i in 0..10000 {
            let key = format!("round_{}_key_{}", round, i);
            map.remove(&key);
        }
    }

    assert!(map.is_empty());
    assert_eq!(map.len(), 0);
}
