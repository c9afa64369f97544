use atlasip::metrics::{RequestMetrics, SourceCounters};

#[test]
fn test_initial_snapshot_is_zero() {
    let m = RequestMetrics::new();
    assert_eq!(m.rdap.requests, 0);
    assert_eq!(m.rdap.errors, 0);
    assert_eq!(m.rdap.latency_us, 0);
    assert_eq!(m.fallbacks, 0);
    assert_eq!(m.cache_hits, 0);
}

#[test]
fn test_record_rdap_success() {
    let mut m = RequestMetrics::new();
    m.record_rdap(50_000, true);
    assert_eq!(m.rdap.requests, 1);
    assert_eq!(m.rdap.errors, 0);
    assert_eq!(m.rdap.latency_us, 50_000);
    assert_eq!(m.whois, SourceCounters::new());
}

#[test]
fn test_record_rdap_error() {
    let mut m = RequestMetrics::new();
    m.record_rdap(10_000, false);
    assert_eq!(m.rdap.requests, 1);
    assert_eq!(m.rdap.errors, 1);
}

#[test]
fn test_error_rate_partial() {
    let mut m = RequestMetrics::new();
    m.record_whois(1_000, true);
    m.record_whois(1_000, false);
    m.record_whois(1_000, true);
    m.record_whois(1_000, false);
    assert_eq!(m.whois.requests, 4);
    assert_eq!(m.whois.errors, 2);
    assert_eq!(m.whois.latency_us, 4_000);
}

#[test]
fn test_mean_latency_ms() {
    let mut m = RequestMetrics::new();
    m.record_dns(100_000, true);
    m.record_dns(200_000, true);
    assert_eq!(m.dns.requests, 2);
    assert_eq!(m.dns.latency_us, 300_000);
}

#[test]
fn test_fallback_and_cache_hit_counters() {
    let mut m = RequestMetrics::new();
    m.record_fallback();
    m.record_fallback();
    m.record_cache_hit();
    assert_eq!(m.fallbacks, 2);
    assert_eq!(m.cache_hits, 1);
}

#[test]
fn counters_wrap_like_atomics() {
    let mut c = SourceCounters { requests: u64::MAX, errors: u64::MAX, latency_us: u64::MAX - 1 };
    c.record(3, false);
    assert_eq!(c.requests, 0);
    assert_eq!(c.errors, 0);
    assert_eq!(c.latency_us, 1);
}
