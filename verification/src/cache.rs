//! The lookup cache: records kept for a time-to-live, under keys that are
//! compared case-insensitively (ASCII).
//!
//! Time is a monotonic clock reading in milliseconds, supplied by the
//! caller on every call; expired entries are never returned and are dropped
//! on the next insertion.
use vstd::prelude::*;

use crate::models::IpRecord;
use crate::text::{ascii_lower, chars_of, eq_chars, lower_vec, string_of};

verus! {

/// Milliseconds elapsed from `then` to `now` (zero if the clock reads
/// earlier).
pub open spec fn elapsed(then: u64, now: u64) -> nat {
    if now >= then {
        (now - then) as nat
    } else {
        0
    }
}

/// Whether an entry stored at `then` is still live at `now`.
pub open spec fn fresh(then: u64, now: u64, ttl_ms: u64) -> bool {
    elapsed(then, now) < ttl_ms
}

/// One cached record.
#[derive(Debug)]
pub struct CacheEntry {
    key: String,
    record: IpRecord,
    inserted_at: u64,
}

/// A time-to-live cache of lookup records.
#[derive(Debug)]
pub struct LookupCache {
    entries: Vec<CacheEntry>,
    ttl_ms: u64,
}

/// The table of a list of entries with distinct keys.
pub closed spec fn table_of(s: Seq<CacheEntry>) -> Map<Seq<char>, (IpRecord, u64)>
    decreases s.len(),
{
    if s.len() == 0 {
        Map::empty()
    } else {
        table_of(s.drop_last()).insert(s.last().key@, (s.last().record, s.last().inserted_at))
    }
}

proof fn lemma_table_index(s: Seq<CacheEntry>, i: int)
    requires
        forall|a: int, b: int| 0 <= a < b < s.len() ==> s[a].key@ != s[b].key@,
        0 <= i < s.len(),
    ensures
        table_of(s).contains_key(s[i].key@),
        table_of(s)[s[i].key@] == (s[i].record, s[i].inserted_at),
    decreases s.len(),
{
    if i < s.len() - 1 {
        lemma_table_index(s.drop_last(), i);
    }
}

proof fn lemma_table_absent(s: Seq<CacheEntry>, k: Seq<char>)
    requires
        forall|i: int| 0 <= i < s.len() ==> s[i].key@ != k,
    ensures
        !table_of(s).contains_key(k),
    decreases s.len(),
{
    if s.len() > 0 {
        lemma_table_absent(s.drop_last(), k);
    }
}

proof fn lemma_table_has(s: Seq<CacheEntry>, k: Seq<char>)
    requires
        table_of(s).contains_key(k),
    ensures
        exists|i: int| 0 <= i < s.len() && s[i].key@ == k,
    decreases s.len(),
{
    if s.len() > 0 && s.last().key@ != k {
        lemma_table_has(s.drop_last(), k);
        let i = choose|i: int| 0 <= i < s.drop_last().len() && s.drop_last()[i].key@ == k;
        assert(s[i].key@ == k);
    }
}

impl LookupCache {
    /// The cache invariant: keys are distinct and lower-case.
    pub closed spec fn wf(&self) -> bool {
        &&& forall|a: int, b: int| 0 <= a < b < self.entries@.len() ==> self.entries@[a].key@ != self.entries@[b].key@
    }

    /// The cached entries: key, then (record, time of insertion).
    pub closed spec fn table(&self) -> Map<Seq<char>, (IpRecord, u64)> {
        table_of(self.entries@)
    }

    /// The time-to-live, in milliseconds.
    pub closed spec fn ttl(&self) -> u64 {
        self.ttl_ms
    }

    /// An empty cache whose entries live for `ttl_ms` milliseconds.
    pub fn new(ttl_ms: u64) -> (r: LookupCache)
        ensures
            r.wf(),
            r.table() == Map::<Seq<char>, (IpRecord, u64)>::empty(),
            r.ttl() == ttl_ms,
    {
        let r = LookupCache { entries: Vec::new(), ttl_ms };
        proof {
            assert(r.table() =~= Map::<Seq<char>, (IpRecord, u64)>::empty());
        }
        r
    }

    fn position(&self, k: &[char]) -> (r: Option<usize>)
        requires
            self.wf(),
        ensures
            match r {
                Some(i) => i < self.entries@.len() && self.entries@[i as int].key@ == k@,
                None => forall|i: int| 0 <= i < self.entries@.len() ==> self.entries@[i].key@ != k@,
            },
    {
        let mut i: usize = 0;
        while i < self.entries.len()
            invariant
                i <= self.entries.len(),
                forall|j: int| 0 <= j < i ==> self.entries@[j].key@ != k@,
            decreases self.entries.len() - i,
        {
            let e = chars_of(self.entries[i].key.as_str());
            if eq_chars(&e, k) {
                return Some(i);
            }
            i += 1;
        }
        None
    }

    /// The record cached under `key` (compared case-insensitively), unless
    /// it is missing or expired at `now`.
    pub fn get(&self, key: &str, now: u64) -> (r: Option<&IpRecord>)
        requires
            self.wf(),
        ensures
            ({
                let k = ascii_lower(key@);
                if self.table().contains_key(k) && fresh(self.table()[k].1, now, self.ttl()) {
                    r == Some(&self.table()[k].0)
                } else {
                    r is None
                }
            }),
    {
        let kv = chars_of(key);
        let k = lower_vec(&kv);
        match self.position(&k) {
            Some(i) => {
                proof {
                    lemma_table_index(self.entries@, i as int);
                }
                let e = &self.entries[i];
                let age = if now >= e.inserted_at {
                    now - e.inserted_at
                } else {
                    0
                };
                if age < self.ttl_ms {
                    Some(&e.record)
                } else {
                    None
                }
            },
            None => {
                proof {
                    lemma_table_absent(self.entries@, k@);
                }
                None
            },
        }
    }

    /// The number of entries live at `now`.
    pub fn len(&self, now: u64) -> (r: usize)
        requires
            self.wf(),
        ensures
            fresh_part(self.table(), now, self.ttl()).dom().finite(),
            r == fresh_part(self.table(), now, self.ttl()).dom().len(),
    {
        let ghost s = self.entries@;
        let ghost ttl = self.ttl_ms;
        let mut n: usize = 0;
        let mut i: usize = 0;
        while i < self.entries.len()
            invariant
                i <= self.entries.len(),
                s == self.entries@,
                ttl == self.ttl_ms,
                n == live_only(s.take(i as int), now, ttl).len(),
            decreases self.entries.len() - i,
        {
            proof {
                assert(s.take(i + 1).drop_last() =~= s.take(i as int));
                assert(s.take(i + 1).last() == s[i as int]);
                lemma_live_len_bound(s.take(i as int), now, ttl);
            }
            let at = self.entries[i].inserted_at;
            let age = if now >= at {
                now - at
            } else {
                0
            };
            if age < self.ttl_ms {
                n += 1;
            }
            i += 1;
        }
        proof {
            assert(s.take(i as int) =~= s);
            lemma_live_table(s, now, ttl);
            lemma_live_distinct(s, now, ttl);
            lemma_table_len(live_only(s, now, ttl));
        }
        n
    }

    /// Whether no entry is live at `now`.
    pub fn is_empty(&self, now: u64) -> (r: bool)
        requires
            self.wf(),
        ensures
            r == (fresh_part(self.table(), now, self.ttl()).dom().len() == 0),
    {
        self.len(now) == 0
    }

    /// Drops every entry that has expired at `now`.
    fn evict(&mut self, now: u64)
        requires
            old(self).wf(),
        ensures
            final(self).wf(),
            final(self).ttl() == old(self).ttl(),
            final(self).table() == fresh_part(old(self).table(), now, old(self).ttl()),
    {
        let ghost s = self.entries@;
        let ghost ttl = self.ttl_ms;
        let mut i: usize = 0;
        let ghost mut j: int = 0;
        proof {
            assert(s.take(0) =~= Seq::<CacheEntry>::empty());
            assert(self.entries@ =~= live_only(s.take(0), now, ttl) + s.skip(0));
        }
        while i < self.entries.len()
            invariant
                0 <= j <= s.len(),
                self.ttl_ms == ttl,
                i == live_only(s.take(j), now, ttl).len(),
                self.entries@ == live_only(s.take(j), now, ttl) + s.skip(j),
            decreases self.entries.len() - i,
        {
            proof {
                assert(self.entries@[i as int] == s[j]);
                assert(s.take(j + 1).drop_last() =~= s.take(j));
                assert(s.take(j + 1).last() == s[j]);
            }
            let at = self.entries[i].inserted_at;
            let age = if now >= at {
                now - at
            } else {
                0
            };
            if age < self.ttl_ms {
                proof {
                    assert(self.entries@ =~= live_only(s.take(j + 1), now, ttl) + s.skip(j + 1));
                }
                i += 1;
            } else {
                let ghost before = self.entries@;
                let _dropped = self.entries.remove(i);
                proof {
                    assert(self.entries@ =~= live_only(s.take(j + 1), now, ttl) + s.skip(j + 1));
                }
            }
            proof {
                j = j + 1;
            }
        }
        proof {
            assert(j == s.len()) by {
                if j < s.len() {
                    assert(self.entries@.len() > i);
                }
            }
            assert(s.take(j) =~= s);
            assert(self.entries@ =~= live_only(s, now, ttl));
            lemma_live_table(s, now, ttl);
            lemma_live_distinct(s, now, ttl);
        }
    }

    /// Stores `record` under `key` (lower-cased) at `now`, dropping every
    /// expired entry first.
    pub fn insert(&mut self, key: &str, record: IpRecord, now: u64)
        requires
            old(self).wf(),
        ensures
            final(self).wf(),
            final(self).ttl() == old(self).ttl(),
            final(self).table() == fresh_part(old(self).table(), now, old(self).ttl()).insert(
                ascii_lower(key@),
                (record, now),
            ),
    {
        self.evict(now);
        let kv = chars_of(key);
        let k = lower_vec(&kv);
        let ghost s = self.entries@;
        match self.position(&k) {
            Some(i) => {
                let _removed = self.entries.remove(i);
                proof {
                    assert(self.entries@ =~= s.remove(i as int));
                    lemma_table_remove(s, i as int);
                    assert forall|a: int, b: int| 0 <= a < b < self.entries@.len() implies self.entries@[a].key@ != self.entries@[b].key@ by {
                        let a0 = if a < i { a } else { a + 1 };
                        let b0 = if b < i { b } else { b + 1 };
                        assert(self.entries@[a] == s[a0] && self.entries@[b] == s[b0]);
                    }
                    assert forall|j: int| 0 <= j < self.entries@.len() implies self.entries@[j].key@ != k@ by {
                        let j0 = if j < i { j } else { j + 1 };
                        assert(self.entries@[j] == s[j0]);
                    }
                }
            },
            None => {
                proof {
                    lemma_table_absent(s, k@);
                    assert(table_of(s).remove(k@) =~= table_of(s));
                }
            },
        }
        let ghost t = self.entries@;
        self.entries.push(CacheEntry { key: string_of(&k), record, inserted_at: now });
        proof {
            assert(self.entries@.drop_last() =~= t);
            assert(self.table() =~= table_of(s).remove(k@).insert(k@, (record, now)));
        }
    }
}

/// The entries of `s` still live at `now`, in order.
pub closed spec fn live_only(s: Seq<CacheEntry>, now: u64, ttl: u64) -> Seq<CacheEntry>
    decreases s.len(),
{
    if s.len() == 0 {
        seq![]
    } else if fresh(s.last().inserted_at, now, ttl) {
        live_only(s.drop_last(), now, ttl).push(s.last())
    } else {
        live_only(s.drop_last(), now, ttl)
    }
}

/// The entries of a table that are live at `now`.
pub open spec fn fresh_part(m: Map<Seq<char>, (IpRecord, u64)>, now: u64, ttl: u64) -> Map<
    Seq<char>,
    (IpRecord, u64),
> {
    Map::new(|k: Seq<char>| m.contains_key(k) && fresh(m[k].1, now, ttl), |k: Seq<char>| m[k])
}

proof fn lemma_live_table(s: Seq<CacheEntry>, now: u64, ttl: u64)
    requires
        forall|a: int, b: int| 0 <= a < b < s.len() ==> s[a].key@ != s[b].key@,
    ensures
        table_of(live_only(s, now, ttl)) == fresh_part(table_of(s), now, ttl),
    decreases s.len(),
{
    if s.len() > 0 {
        let t = s.drop_last();
        lemma_live_table(t, now, ttl);
        assert forall|j: int| 0 <= j < t.len() implies t[j].key@ != s.last().key@ by {
            assert(t[j] == s[j]);
        }
        lemma_table_absent(t, s.last().key@);
        let lk = s.last().key@;
        let lv = (s.last().record, s.last().inserted_at);
        let m = table_of(t);
        assert(table_of(s) == m.insert(lk, lv));
        let lhs = table_of(live_only(s, now, ttl));
        let rhs = fresh_part(m.insert(lk, lv), now, ttl);
        if fresh(s.last().inserted_at, now, ttl) {
            let l = live_only(t, now, ttl);
            assert(live_only(s, now, ttl) == l.push(s.last()));
            assert(l.push(s.last()).drop_last() =~= l);
            assert(table_of(l.push(s.last())) == table_of(l).insert(lk, lv));
            assert(lhs =~= fresh_part(m, now, ttl).insert(lk, lv));
        } else {
            assert(lhs == fresh_part(m, now, ttl));
        }
        assert forall|k: Seq<char>| lhs.contains_key(k) <==> rhs.contains_key(k) by {}
        assert forall|k: Seq<char>| lhs.contains_key(k) implies lhs[k] == rhs[k] by {}
        assert(lhs =~= rhs);
    } else {
        assert(table_of(live_only(s, now, ttl)) =~= fresh_part(table_of(s), now, ttl));
    }
}

proof fn lemma_live_distinct(s: Seq<CacheEntry>, now: u64, ttl: u64)
    requires
        forall|a: int, b: int| 0 <= a < b < s.len() ==> s[a].key@ != s[b].key@,
    ensures
        forall|a: int, b: int| 0 <= a < b < live_only(s, now, ttl).len() ==> live_only(s, now, ttl)[a].key@
            != live_only(s, now, ttl)[b].key@,
        forall|a: int| 0 <= a < live_only(s, now, ttl).len() ==> exists|j: int| 0 <= j < s.len() && s[j] == #[trigger] live_only(s, now, ttl)[a],
    decreases s.len(),
{
    if s.len() > 0 {
        let t = s.drop_last();
        lemma_live_distinct(t, now, ttl);
        let l = live_only(t, now, ttl);
        assert forall|a: int| 0 <= a < l.len() implies exists|j: int| 0 <= j < s.len() && s[j] == #[trigger] l[a] by {
            let j = choose|j: int| 0 <= j < t.len() && t[j] == l[a];
            assert(s[j] == l[a]);
        }
        if fresh(s.last().inserted_at, now, ttl) {
            let r = l.push(s.last());
            assert forall|a: int| 0 <= a < l.len() implies l[a].key@ != s.last().key@ by {
                let j = choose|j: int| 0 <= j < t.len() && t[j] == l[a];
                assert(t[j] == s[j]);
            }
            assert forall|a: int| 0 <= a < r.len() implies exists|j: int| 0 <= j < s.len() && s[j] == #[trigger] r[a] by {
                if a == l.len() {
                    assert(s[s.len() - 1] == r[a]);
                } else {
                    assert(r[a] == l[a]);
                }
            }
        }
    }
}

/// With distinct keys the table has one entry per element.
proof fn lemma_table_len(s: Seq<CacheEntry>)
    requires
        forall|a: int, b: int| 0 <= a < b < s.len() ==> s[a].key@ != s[b].key@,
    ensures
        table_of(s).dom().finite(),
        table_of(s).dom().len() == s.len(),
    decreases s.len(),
{
    if s.len() > 0 {
        let t = s.drop_last();
        lemma_table_len(t);
        assert forall|j: int| 0 <= j < t.len() implies t[j].key@ != s.last().key@ by {
            assert(t[j] == s[j]);
        }
        lemma_table_absent(t, s.last().key@);
    } else {
        assert(table_of(s).dom() =~= Set::<Seq<char>>::empty());
    }
}

proof fn lemma_live_len_bound(s: Seq<CacheEntry>, now: u64, ttl: u64)
    ensures
        live_only(s, now, ttl).len() <= s.len(),
    decreases s.len(),
{
    if s.len() > 0 {
        lemma_live_len_bound(s.drop_last(), now, ttl);
    }
}

/// Removing an entry removes its key from the table.
proof fn lemma_table_remove(s: Seq<CacheEntry>, i: int)
    requires
        forall|a: int, b: int| 0 <= a < b < s.len() ==> s[a].key@ != s[b].key@,
        0 <= i < s.len(),
    ensures
        table_of(s.remove(i)) == table_of(s).remove(s[i].key@),
    decreases s.len(),
{
    let t = s.drop_last();
    if i == s.len() - 1 {
        assert(s.remove(i) =~= t);
        assert forall|j: int| 0 <= j < t.len() implies t[j].key@ != s[i].key@ by {
            assert(t[j] == s[j]);
        }
        lemma_table_absent(t, s[i].key@);
        assert(table_of(t) =~= table_of(s).remove(s[i].key@));
    } else {
        lemma_table_remove(t, i);
        assert(s.remove(i).drop_last() =~= t.remove(i));
        assert(s.remove(i).last() == s.last());
        assert(table_of(s.remove(i)) =~= table_of(s).remove(s[i].key@));
    }
}

/// Reading after writing: once `record` is stored under `key` at `now`, a
/// read under any spelling of `key` that differs only in ASCII case finds
/// exactly `record` while less than the time-to-live has elapsed, and finds
/// nothing afterwards. Every other entry left after the write is live at
/// `now`: the write dropped the expired ones.
pub proof fn law_cache_read_after_write(
    m: Map<Seq<char>, (IpRecord, u64)>,
    key: Seq<char>,
    other_spelling: Seq<char>,
    record: IpRecord,
    now: u64,
    later: u64,
    ttl: u64,
)
    requires
        ascii_lower(other_spelling) == ascii_lower(key),
    ensures
        ({
            let t = fresh_part(m, now, ttl).insert(ascii_lower(key), (record, now));
            let k = ascii_lower(other_spelling);
            &&& t.contains_key(k)
            &&& t[k].0 == record
            &&& fresh(t[k].1, later, ttl) <==> elapsed(now, later) < ttl
            &&& forall|j: Seq<char>| #[trigger] t.contains_key(j) && j != k ==> fresh(t[j].1, now, ttl)
        }),
{
}

} // verus!
