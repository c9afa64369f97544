use atlasip::cache::LookupCache;
use atlasip::models::IpRecord;

fn record(ip: &str) -> IpRecord {
    IpRecord::new(1, ip)
}

const HOUR_MS: u64 = 3_600_000;

#[test]
fn test_get_miss() {
    let cache = LookupCache::new(HOUR_MS);
    assert!(cache.get("8.8.8.8", 0).is_none());
}

#[test]
fn test_insert_then_hit() {
    let mut cache = LookupCache::new(HOUR_MS);
    cache.insert("8.8.8.8", record("8.8.8.8"), 10);
    let hit = cache.get("8.8.8.8", 20);
    assert!(hit.is_some());
    assert_eq!(hit.unwrap().ip, "8.8.8.8");
}

#[test]
fn test_ttl_expired_returns_none() {
    let mut cache = LookupCache::new(1);
    cache.insert("1.1.1.1", record("1.1.1.1"), 100);
    assert!(cache.get("1.1.1.1", 105).is_none());
}

#[test]
fn test_ttl_not_expired_returns_record() {
    let mut cache = LookupCache::new(60_000);
    cache.insert("9.9.9.9", record("9.9.9.9"), 1_000);
    assert!(cache.get("9.9.9.9", 1_000).is_some());
    assert!(cache.get("9.9.9.9", 60_999).is_some());
    assert!(cache.get("9.9.9.9", 61_000).is_none());
}

#[test]
fn test_key_case_insensitive() {
    let mut cache = LookupCache::new(HOUR_MS);
    cache.insert("Google.Com", record("google.com"), 0);
    assert!(cache.get("google.com", 1).is_some());
    assert!(cache.get("GOOGLE.COM", 1).is_some());
}

#[test]
fn test_len_counts_live_entries_only() {
    let mut cache = LookupCache::new(5);
    assert_eq!(cache.len(0), 0);
    cache.insert("a", record("1.2.3.4"), 0);
    assert_eq!(cache.len(1), 1);
    assert!(!cache.is_empty(1));
    assert_eq!(cache.len(10), 0);
    assert!(cache.is_empty(10));
}

#[test]
fn test_multiple_entries() {
    let mut cache = LookupCache::new(HOUR_MS);
    for i in 0..10u8 {
        cache.insert(&format!("10.0.0.{i}"), record(&format!("10.0.0.{i}")), i as u64);
    }
    assert_eq!(cache.len(10), 10);
    for i in 0..10u8 {
        assert!(cache.get(&format!("10.0.0.{i}"), 10).is_some());
    }
}

#[test]
fn test_lazy_eviction_on_insert() {
    let mut cache = LookupCache::new(5);
    cache.insert("old", record("1.1.1.1"), 0);
    cache.insert("new", record("2.2.2.2"), 10);
    assert!(cache.get("old", 10).is_none());
    assert!(cache.get("new", 10).is_some());
    assert_eq!(cache.len(0), 1, "the expired entry was dropped, not just hidden");
}

#[test]
fn insert_replaces_same_key() {
    let mut cache = LookupCache::new(HOUR_MS);
    cache.insert("x", IpRecord::new(1, "first"), 0);
    cache.insert("X", IpRecord::new(2, "second"), 5);
    assert_eq!(cache.len(5), 1);
    assert_eq!(cache.get("x", 6).unwrap().ip, "second");
}

#[test]
fn clock_going_backwards_counts_as_no_time() {
    let mut cache = LookupCache::new(10);
    cache.insert("k", record("k"), 1_000);
    assert!(cache.get("k", 0).is_some());
}
