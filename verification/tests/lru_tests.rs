use wd_tools::sync::async_lru::AsyncLru;
use wd_tools::sync::lru::{LruCache, LruDoubleLink};

#[test]
fn test_lru_basic() {
    let mut cache = LruCache::new(2);

    cache.put("A", 1);
    cache.put("B", 2);
    assert_eq!(cache.len(), 2);

    assert_eq!(cache.get("A"), Some(&1));

    cache.put("C", 3);

    assert_eq!(cache.get("B"), None);
    assert_eq!(cache.get("A"), Some(&1));
    assert_eq!(cache.get("C"), Some(&3));
}

#[test]
fn test_update_existing_key() {
    let mut cache = LruCache::new(2);

    cache.put("A", 1);
    cache.put("B", 2);

    let old = cache.put("A", 100);
    assert_eq!(old, Some(1));
    assert_eq!(cache.get("A"), Some(&100));

    cache.put("C", 3);

    assert_eq!(cache.get("B"), None);
    assert_eq!(cache.get("A"), Some(&100));
}

#[test]
fn test_capacity_overflow_logic() {
    let mut cache = LruCache::new(1);

    cache.put("A", 1);
    cache.put("A", 2);
    cache.put("A", 3);

    assert_eq!(cache.len(), 1);
    assert_eq!(cache.get("A"), Some(&3));
}

#[test]
fn test_memory_cleanup() {
    {
        let mut cache = LruCache::new(5);
        cache.put("A", 1);
        cache.put("B", 2);
        cache.put("C", 3);
    }
}

#[test]
fn test_handle_closure_pattern() {
    let lru = AsyncLru::<String>::new(2, 5);
    lru.put("key1", "value1".to_string());

    let result = lru.get("key1", |opt| match opt {
        Some(v) => format!("found: {}", v),
        None => "not found".to_string(),
    });

    assert_eq!(result, "found: value1");
}

#[test]
fn async_lru_shards_keep_values() {
    let lru = AsyncLru::<u32>::new(4, 8);
    for i in 0..16u32 {
        lru.put(format!("key_{}", i), i);
    }
    for i in 8..16u32 {
        let hit = lru.get(format!("key_{}", i), |opt| opt.cloned());
        assert_eq!(hit, Some(i), "a recent key fell out of its shard");
    }
}

#[test]
fn get_mut_updates_in_place() {
    let mut cache = LruCache::new(2);
    cache.put("A", 1);
    cache.put("B", 2);
    // mutate A through the exclusive handle; A becomes most recent
    let seen = cache.get_mut("A", |opt| {
        let v = opt.expect("A is cached");
        let before = *v;
        *v += 10;
        before
    });
    assert_eq!(seen, 1);
    assert_eq!(cache.get("A"), Some(&11));
    // B is now least recent and leaves first
    cache.put("C", 3);
    assert_eq!(cache.get("B"), None);
    assert_eq!(cache.get("A"), Some(&11));
    // a missing key hands the closure nothing and changes nothing
    let missing = cache.get_mut("Z", |opt| opt.is_none());
    assert!(missing);

    let lru = AsyncLru::<u32>::new(2, 4);
    lru.put("k", 5);
    lru.get_mut("k", |opt| {
        if let Some(v) = opt {
            *v = 6;
        }
    });
    assert_eq!(lru.get("k", |opt| opt.cloned()), Some(6));
}

#[test]
fn recency_list_moves_to_front() {
    let mut link = LruDoubleLink::new();
    let a: Vec<u8> = vec![1];
    let b: Vec<u8> = vec![2];
    link.update(&a);
    link.update(&b);
    // the least recent of the two leaves first
    assert_eq!(link.remove_last(), vec![1]);
    assert_eq!(link.remove_last(), vec![2]);
    let empty = link.remove_last();
    assert_eq!(empty, Vec::<u8>::new());
}
