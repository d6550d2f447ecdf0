use dns::cache::Cache;

#[test]
fn test_cache() {
    let mut cache = Cache::new(1);
    cache.put("binciluo".to_string(), "127.0.0.1".to_string(), 0);
    let key = "binciluo".to_string();
    match cache.get(key.as_str(), false, 0) {
        Some(ip) => assert_eq!(ip, "127.0.0.1"),
        None => panic!("Should be found."),
    }
    // One second later the entry has reached its expiry instant.
    match cache.get(key.as_str(), false, 1000) {
        Some(_) => panic!("Should not be found. It shoud be removed from cache after 1s."),
        None => {}
    }
}

#[test]
fn ttl_example_one_second() {
    // TTL = 1s; a put is visible immediately and gone after 1.1s.
    let mut cache = Cache::new(1);
    cache.put("a.com".to_string(), "1.2.3.4".to_string(), 0);
    assert_eq!(cache.get("a.com", false, 0), Some("1.2.3.4".to_string()));
    assert_eq!(cache.get("a.com", false, 1100), None);
}

#[test]
fn sliding_refresh_keeps_entry_alive() {
    // put; wait ttl/2; refreshed get; wait ttl/2 again: still present.
    let mut cache = Cache::new(1);
    cache.put("k".to_string(), "v".to_string(), 0);
    assert_eq!(cache.get("k", true, 500), Some("v".to_string()));
    assert_eq!(cache.get("k", false, 1000), Some("v".to_string()));

    // The same sequence without the refresh: gone at the original expiry.
    let mut fixed = Cache::new(1);
    fixed.put("k".to_string(), "v".to_string(), 0);
    assert_eq!(fixed.get("k", false, 500), Some("v".to_string()));
    assert_eq!(fixed.get("k", false, 1000), None);
}

#[test]
fn expired_entry_is_eagerly_removed() {
    let mut cache = Cache::new(1);
    cache.put("k".to_string(), "v".to_string(), 0);
    assert_eq!(cache.get_record_num(), 1);
    assert_eq!(cache.get("k", false, 2000), None);
    // The failed lookup removed the entry; the sweeper was never involved.
    assert_eq!(cache.get_record_num(), 0);
}

#[test]
fn sweep_purges_only_expired_entries() {
    let mut cache = Cache::new(1);
    cache.put("old".to_string(), "1.1.1.1".to_string(), 0);
    cache.put("new".to_string(), "2.2.2.2".to_string(), 900);
    assert_eq!(cache.get_record_num(), 2);
    cache.sweep(1500);
    assert_eq!(cache.get_record_num(), 1);
    assert_eq!(cache.get("old", false, 1500), None);
    assert_eq!(cache.get("new", false, 1500), Some("2.2.2.2".to_string()));
}

#[test]
fn overwrite_resets_value_and_expiry() {
    let mut cache = Cache::new(1);
    cache.put("k".to_string(), "first".to_string(), 0);
    cache.put("k".to_string(), "second".to_string(), 800);
    assert_eq!(cache.get("k", false, 1500), Some("second".to_string()));
    assert_eq!(cache.get_record_num(), 1);
}

#[test]
fn distinct_keys_do_not_interfere() {
    // Interleaved puts and gets on distinct keys: each key's final value is
    // the last put issued for that key.
    let mut cache = Cache::new(10);
    for i in 0..8u32 {
        cache.put(format!("key-{}", i), format!("old-{}", i), 0);
    }
    for i in (0..8u32).rev() {
        cache.put(format!("key-{}", i), format!("val-{}", i), 1);
        assert_eq!(
            cache.get(&format!("key-{}", (i + 1) % 8), false, 1).is_some(),
            true
        );
    }
    for i in 0..8u32 {
        assert_eq!(
            cache.get(&format!("key-{}", i), false, 2),
            Some(format!("val-{}", i))
        );
    }
    assert_eq!(cache.get_record_num(), 8);
}

#[test]
fn instants_at_the_clock_boundary() {
    // The largest instant the contract admits: the expiry lands exactly on
    // u64::MAX and the entry is still visible just before it.
    let mut cache = Cache::new(1);
    let t0 = u64::MAX - 1000;
    cache.put("k".to_string(), "v".to_string(), t0);
    assert_eq!(cache.get("k", false, u64::MAX - 1), Some("v".to_string()));

    let mut edge = Cache::new(0);
    // A zero time-to-live expires an entry at the instant it is written.
    edge.put("k".to_string(), "v".to_string(), 5);
    assert_eq!(edge.get("k", false, 5), None);
}

#[test]
fn running_flag_and_expiration_time() {
    let mut cache = Cache::new(3);
    assert!(cache.is_running());
    assert_eq!(cache.get_expiration_time(), 3000);
    cache.shut_down();
    assert!(!cache.is_running());
    // Teardown only signals the sweeper; the mapping is untouched.
    cache.put("k".to_string(), "v".to_string(), 0);
    assert_eq!(cache.get("k", false, 1), Some("v".to_string()));
}
