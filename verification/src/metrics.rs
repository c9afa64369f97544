//! Per-source request counters: requests, errors and accumulated latency
//! of RDAP, WHOIS and DNS, with fallback and cache-hit counts.
//!
//! Counters wrap around on overflow, as atomic additions do.
use vstd::prelude::*;

verus! {

/// `x + y` modulo 2^64.
pub open spec fn wrap_add(x: u64, y: u64) -> u64 {
    if x + y > u64::MAX {
        (x + y - 0x1_0000_0000_0000_0000) as u64
    } else {
        (x + y) as u64
    }
}

fn add_wrapping(x: u64, y: u64) -> (r: u64)
    ensures
        r == wrap_add(x, y),
{
    x.wrapping_add(y)
}

/// The counters of one source.
#[derive(Clone, Copy, PartialEq, Eq, Structural, Debug)]
pub struct SourceCounters {
    /// Requests issued.
    pub requests: u64,
    /// Requests that failed.
    pub errors: u64,
    /// Accumulated latency, in microseconds.
    pub latency_us: u64,
}

/// The counters after one request that took `latency_us` and succeeded
/// when `ok`.
pub open spec fn recorded(c: SourceCounters, latency_us: u64, ok: bool) -> SourceCounters {
    SourceCounters {
        requests: wrap_add(c.requests, 1),
        errors: if ok {
            c.errors
        } else {
            wrap_add(c.errors, 1)
        },
        latency_us: wrap_add(c.latency_us, latency_us),
    }
}

impl SourceCounters {
    /// All counters at zero.
    pub fn new() -> (r: SourceCounters)
        ensures
            r.requests == 0 && r.errors == 0 && r.latency_us == 0,
    {
        SourceCounters { requests: 0, errors: 0, latency_us: 0 }
    }

    /// Records one completed request.
    pub fn record(&mut self, latency_us: u64, ok: bool)
        ensures
            *final(self) == recorded(*old(self), latency_us, ok),
    {
        self.requests = add_wrapping(self.requests, 1);
        self.latency_us = add_wrapping(self.latency_us, latency_us);
        if !ok {
            self.errors = add_wrapping(self.errors, 1);
        }
    }
}

/// The counters of all sources.
#[derive(Clone, Copy, PartialEq, Eq, Structural, Debug)]
pub struct RequestMetrics {
    pub rdap: SourceCounters,
    pub whois: SourceCounters,
    pub dns: SourceCounters,
    /// Lookups where RDAP failed and WHOIS became the primary source.
    pub fallbacks: u64,
    /// Lookups served from the cache.
    pub cache_hits: u64,
}

/// Whether every counter of `m` is zero.
pub open spec fn all_zero(m: RequestMetrics) -> bool {
    &&& m.rdap.requests == 0 && m.rdap.errors == 0 && m.rdap.latency_us == 0
    &&& m.whois.requests == 0 && m.whois.errors == 0 && m.whois.latency_us == 0
    &&& m.dns.requests == 0 && m.dns.errors == 0 && m.dns.latency_us == 0
    &&& m.fallbacks == 0 && m.cache_hits == 0
}

impl RequestMetrics {
    /// All counters at zero.
    pub fn new() -> (r: RequestMetrics)
        ensures
            all_zero(r),
    {
        RequestMetrics {
            rdap: SourceCounters::new(),
            whois: SourceCounters::new(),
            dns: SourceCounters::new(),
            fallbacks: 0,
            cache_hits: 0,
        }
    }

    /// Records one RDAP request.
    pub fn record_rdap(&mut self, latency_us: u64, ok: bool)
        ensures
            *final(self) == (RequestMetrics { rdap: recorded(old(self).rdap, latency_us, ok), ..*old(self) }),
    {
        self.rdap.record(latency_us, ok);
    }

    /// Records one WHOIS request.
    pub fn record_whois(&mut self, latency_us: u64, ok: bool)
        ensures
            *final(self) == (RequestMetrics { whois: recorded(old(self).whois, latency_us, ok), ..*old(self) }),
    {
        self.whois.record(latency_us, ok);
    }

    /// Records one DNS lookup.
    pub fn record_dns(&mut self, latency_us: u64, ok: bool)
        ensures
            *final(self) == (RequestMetrics { dns: recorded(old(self).dns, latency_us, ok), ..*old(self) }),
    {
        self.dns.record(latency_us, ok);
    }

    /// Records that WHOIS became the primary source because RDAP failed.
    pub fn record_fallback(&mut self)
        ensures
            *final(self) == (RequestMetrics { fallbacks: wrap_add(old(self).fallbacks, 1), ..*old(self) }),
    {
        self.fallbacks = add_wrapping(self.fallbacks, 1);
    }

    /// Records a lookup served from the cache.
    pub fn record_cache_hit(&mut self)
        ensures
            *final(self) == (RequestMetrics { cache_hits: wrap_add(old(self).cache_hits, 1), ..*old(self) }),
    {
        self.cache_hits = add_wrapping(self.cache_hits, 1);
    }
}

} // verus!
