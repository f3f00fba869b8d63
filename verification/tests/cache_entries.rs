//! The stamped cache and its stale-entry eviction.

use netmux::cache::HashCache;

#[test]
fn cached_values_come_back_until_evicted() {
    let mut cache: HashCache<String> = HashCache::with_capacity(2);
    assert!(cache.lookup(1).is_none());
    cache.insert(1, "one".to_string());
    cache.insert(2, "two".to_string());
    assert_eq!(cache.lookup(1).unwrap().as_str(), "one");
    assert_eq!(cache.lookup(2).unwrap().as_str(), "two");
    // Below twice the capacity, maintenance leaves everything alone.
    cache.maintain();
    assert_eq!(cache.len(), 2);
}

#[test]
fn maintenance_drops_entries_a_capacity_behind() {
    let mut cache: HashCache<u32> = HashCache::with_capacity(2);
    for key in 0..5u64 {
        cache.insert(key, key as u32 * 10);
    }
    assert_eq!(cache.len(), 5);
    // Five entries exceed twice the capacity of two: only the entries
    // stamped within the last two insertions survive.
    cache.maintain();
    assert_eq!(cache.len(), 2);
    assert!(cache.lookup(0).is_none());
    assert!(cache.lookup(2).is_none());
    assert_eq!(*cache.lookup(3).unwrap(), 30);
    assert_eq!(*cache.lookup(4).unwrap(), 40);
}
