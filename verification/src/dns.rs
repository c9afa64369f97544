//! DNS: resolver choice, PTR names, and the shaping of lookup answers.
//!
//! The queries themselves are made by the caller; the functions here decide
//! what to ask and what to keep of the answers.
use vstd::prelude::*;

use crate::models::{dns_view, DnsRecord, DnsRecordView};
use crate::text::{chars_of, eq_lit, push_str, slice_vec, string_of};

verus! {

/// The DNS transport strategy.
#[derive(Clone, Copy, PartialEq, Eq, Structural, Debug)]
pub enum DnsMode {
    /// The system resolver only.
    SystemOnly,
    /// DNS-over-HTTPS only.
    DohOnly,
    /// DNS-over-TLS only.
    DotOnly,
    /// The system resolver, falling back to DNS-over-HTTPS when it fails.
    Automatic,
    /// No DNS queries at all.
    Disabled,
}

/// The result of a full host name lookup.
#[derive(Clone, Debug)]
pub struct DnsLookupResult {
    /// First A or AAAA address resolved.
    pub resolved_ip: Option<String>,
    /// PTR name of the resolved address.
    pub ptr: Option<String>,
    /// All records found, in display order.
    pub records: Vec<DnsRecord>,
    /// Non-fatal error messages.
    pub errors: Vec<String>,
}

/// A well-known DNS-over-TLS provider.
#[derive(Clone, Copy, PartialEq, Eq, Structural, Debug)]
pub enum DotProvider {
    Cloudflare,
    Google,
    Quad9,
}

/// The DNS-over-TLS provider named by `server` (Cloudflare for any name
/// other than `google` and `quad9`).
pub fn dot_provider(server: &str) -> (r: DotProvider)
    ensures
        r == (if server@ == "google"@ {
            DotProvider::Google
        } else if server@ == "quad9"@ {
            DotProvider::Quad9
        } else {
            DotProvider::Cloudflare
        }),
{
    let v = chars_of(server);
    if eq_lit(&v, "google") {
        DotProvider::Google
    } else if eq_lit(&v, "quad9") {
        DotProvider::Quad9
    } else {
        DotProvider::Cloudflare
    }
}

/// A way of resolving a PTR name.
#[derive(Clone, Copy, PartialEq, Eq, Structural, Debug)]
pub enum ReverseVia {
    System,
    Doh,
    Dot,
}

/// How a reverse lookup proceeds in `mode`: the first resolver to ask (none
/// when DNS is disabled), and the resolver to ask when the first one fails.
pub fn reverse_plan(mode: &DnsMode) -> (r: (Option<ReverseVia>, Option<ReverseVia>))
    ensures
        r == (match mode {
            DnsMode::Disabled => (None, None),
            DnsMode::SystemOnly => (Some(ReverseVia::System), None),
            DnsMode::DohOnly => (Some(ReverseVia::Doh), None),
            DnsMode::DotOnly => (Some(ReverseVia::Dot), None),
            DnsMode::Automatic => (Some(ReverseVia::System), Some(ReverseVia::Doh)),
        }),
{
    match mode {
        DnsMode::Disabled => (None, None),
        DnsMode::SystemOnly => (Some(ReverseVia::System), None),
        DnsMode::DohOnly => (Some(ReverseVia::Doh), None),
        DnsMode::DotOnly => (Some(ReverseVia::Dot), None),
        DnsMode::Automatic => (Some(ReverseVia::System), Some(ReverseVia::Doh)),
    }
}

// ---------------------------------------------------------------------------
// Record values
// ---------------------------------------------------------------------------

/// `s.trim_end_matches('.')`.
pub open spec fn trim_dots(s: Seq<char>) -> Seq<char>
    decreases s.len(),
{
    if s.len() > 0 && s.last() == '.' {
        trim_dots(s.drop_last())
    } else {
        s
    }
}

/// Removes the trailing dots of a DNS name.
pub fn trim_trailing_dots(s: &str) -> (r: String)
    ensures
        r@ == trim_dots(s@),
{
    let v = chars_of(s);
    let mut n: usize = v.len();
    proof {
        assert(v@.take(v.len() as int) =~= v@);
    }
    while n > 0 && v[n - 1] == '.'
        invariant
            n <= v.len(),
            trim_dots(v@) == trim_dots(v@.take(n as int)),
        decreases n,
    {
        proof {
            assert(v@.take(n as int).drop_last() =~= v@.take(n - 1));
        }
        n -= 1;
    }
    let t = slice_vec(&v, 0, n);
    proof {
        assert(t@ =~= v@.take(n as int));
        assert(v@.take(v.len() as int) =~= v@);
    }
    string_of(&t)
}

/// The PTR name of a DNS-over-HTTPS answer: the first answer's data without
/// its trailing dots, when that is not empty.
pub open spec fn doh_ptr_spec(answers: Option<Seq<Seq<char>>>) -> Option<Seq<char>> {
    match answers {
        Some(a) if a.len() > 0 && trim_dots(a[0]).len() > 0 => Some(trim_dots(a[0])),
        _ => None,
    }
}

/// Extracts the PTR name from the `data` fields of a DNS-over-HTTPS answer.
pub fn doh_ptr(answers: Option<Vec<String>>) -> (r: Option<String>)
    ensures
        r.deep_view() == doh_ptr_spec(answers.deep_view()),
{
    match answers {
        Some(a) => {
            if a.len() == 0 {
                return None;
            }
            let t = trim_trailing_dots(a[0].as_str());
            if t.as_str().is_empty() {
                None
            } else {
                Some(t)
            }
        },
        None => None,
    }
}

/// The DNS-over-HTTPS URL of a PTR query.
pub fn doh_ptr_url(endpoint: &str, ptr_name: &str) -> (r: String)
    ensures
        r@ == endpoint@ + "?name="@ + ptr_name@ + "&type=PTR"@,
{
    let mut s = endpoint.to_string();
    push_str(&mut s, "?name=");
    push_str(&mut s, ptr_name);
    push_str(&mut s, "&type=PTR");
    s
}

/// The DNS-over-HTTPS URL of the A query whose AD bit tells the DNSSEC
/// status of `hostname`.
pub fn doh_dnssec_url(endpoint: &str, hostname: &str) -> (r: String)
    ensures
        r@ == endpoint@ + "?name="@ + hostname@ + "&type=A&do=1"@,
{
    let mut s = endpoint.to_string();
    push_str(&mut s, "?name=");
    push_str(&mut s, hostname);
    push_str(&mut s, "&type=A&do=1");
    s
}

// ---------------------------------------------------------------------------
// Record ordering
// ---------------------------------------------------------------------------

/// Display rank of a record type: A, AAAA, CNAME, MX, NS, SOA, TXT, others.
pub open spec fn type_rank(t: Seq<char>) -> nat {
    if t == "A"@ {
        0
    } else if t == "AAAA"@ {
        1
    } else if t == "CNAME"@ {
        2
    } else if t == "MX"@ {
        3
    } else if t == "NS"@ {
        4
    } else if t == "SOA"@ {
        5
    } else if t == "TXT"@ {
        6
    } else {
        7
    }
}

/// The records of rank `k`, in their order.
pub open spec fn of_rank(s: Seq<DnsRecordView>, k: nat) -> Seq<DnsRecordView>
    decreases s.len(),
{
    if s.len() == 0 {
        seq![]
    } else if type_rank(s.last().record_type) == k {
        of_rank(s.drop_last(), k).push(s.last())
    } else {
        of_rank(s.drop_last(), k)
    }
}

/// The records of ranks `k` and above, rank by rank.
pub open spec fn ranked_from(s: Seq<DnsRecordView>, k: nat) -> Seq<DnsRecordView>
    decreases 8 - k,
{
    if k >= 8 {
        seq![]
    } else {
        of_rank(s, k) + ranked_from(s, k + 1)
    }
}

/// The stable sort of `s` by display rank.
pub open spec fn sort_by_rank(s: Seq<DnsRecordView>) -> Seq<DnsRecordView> {
    ranked_from(s, 0)
}

/// The display rank of a record type.
pub fn type_rank_exec(t: &str) -> (r: u8)
    ensures
        r as nat == type_rank(t@),
{
    let v = chars_of(t);
    if eq_lit(&v, "A") {
        0
    } else if eq_lit(&v, "AAAA") {
        1
    } else if eq_lit(&v, "CNAME") {
        2
    } else if eq_lit(&v, "MX") {
        3
    } else if eq_lit(&v, "NS") {
        4
    } else if eq_lit(&v, "SOA") {
        5
    } else if eq_lit(&v, "TXT") {
        6
    } else {
        7
    }
}

/// A copy of a record.
pub fn copy_record(d: &DnsRecord) -> (r: DnsRecord)
    ensures
        r@ == d@,
{
    DnsRecord {
        record_type: d.record_type.clone(),
        value: d.value.clone(),
        ttl: d.ttl,
        dnssec_validated: d.dnssec_validated,
    }
}

proof fn lemma_dns_view_push(s: Seq<DnsRecord>, d: DnsRecord)
    ensures
        dns_view(s.push(d)) == dns_view(s).push(d@),
{
    assert(dns_view(s.push(d)) =~= dns_view(s).push(d@));
}

/// Sorts records by display rank (A, AAAA, CNAME, MX, NS, SOA, TXT, then any
/// other type), keeping the order of records of the same rank.
pub fn sort_records(records: &Vec<DnsRecord>) -> (r: Vec<DnsRecord>)
    ensures
        dns_view(r@) == sort_by_rank(dns_view(records@)),
{
    let ghost s = dns_view(records@);
    let mut out: Vec<DnsRecord> = Vec::new();
    let mut k: u8 = 0;
    proof {
        assert(dns_view(out@) =~= Seq::<DnsRecordView>::empty());
    }
    while k < 8
        invariant
            k <= 8,
            s == dns_view(records@),
            dns_view(out@) + ranked_from(s, k as nat) == sort_by_rank(s),
        decreases 8 - k,
    {
        let ghost base = dns_view(out@);
        let mut i: usize = 0;
        while i < records.len()
            invariant
                i <= records.len(),
                s == dns_view(records@),
                dns_view(out@) == base + of_rank(s.take(i as int), k as nat),
            decreases records.len() - i,
        {
            proof {
                assert(s.take(i + 1).drop_last() =~= s.take(i as int));
                assert(s.take(i + 1).last() == records@[i as int]@);
            }
            if type_rank_exec(records[i].record_type.as_str()) == k {
                let ghost before = out@;
                out.push(copy_record(&records[i]));
                proof {
                    lemma_dns_view_push(before, out@.last());
                    assert(out@ =~= before.push(out@.last()));
                }
            }
            i += 1;
        }
        proof {
            assert(s.take(records.len() as int) =~= s);
            assert(ranked_from(s, k as nat) == of_rank(s, k as nat) + ranked_from(s, (k + 1) as nat));
            assert(dns_view(out@) + ranked_from(s, (k + 1) as nat) =~= base + ranked_from(s, k as nat));
        }
        k += 1;
    }
    proof {
        assert(dns_view(out@) =~= sort_by_rank(s));
    }
    out
}

/// The records with their DNSSEC flag set to `validated`.
pub open spec fn stamped(s: Seq<DnsRecordView>, validated: bool) -> Seq<DnsRecordView> {
    s.map_values(|d: DnsRecordView| DnsRecordView { dnssec_validated: validated, ..d })
}

/// The records of all groups, group after group.
pub open spec fn flat_view(gs: Seq<Vec<DnsRecord>>) -> Seq<DnsRecordView>
    decreases gs.len(),
{
    if gs.len() == 0 {
        seq![]
    } else {
        flat_view(gs.drop_last()) + dns_view(gs.last()@)
    }
}

/// Flattens the answers of the record queries, stamps every record with the
/// DNSSEC status of the name, and sorts them for display.
pub fn assemble_records(groups: Vec<Vec<DnsRecord>>, validated: bool) -> (r: Vec<DnsRecord>)
    ensures
        dns_view(r@) == sort_by_rank(stamped(flat_view(groups@), validated)),
{
    let mut flat: Vec<DnsRecord> = Vec::new();
    let mut gi: usize = 0;
    proof {
        assert(groups@.take(0) =~= Seq::<Vec<DnsRecord>>::empty());
        assert(dns_view(flat@) =~= stamped(flat_view(groups@.take(0)), validated));
    }
    while gi < groups.len()
        invariant
            gi <= groups.len(),
            dns_view(flat@) == stamped(flat_view(groups@.take(gi as int)), validated),
        decreases groups.len() - gi,
    {
        let ghost base = dns_view(flat@);
        let g = &groups[gi];
        let mut i: usize = 0;
        proof {
            assert(g@.take(0) =~= Seq::<DnsRecord>::empty());
            assert(base + stamped(dns_view(g@.take(0)), validated) =~= base);
        }
        while i < g.len()
            invariant
                i <= g.len(),
                dns_view(flat@) == base + stamped(dns_view(g@.take(i as int)), validated),
            decreases g.len() - i,
        {
            let ghost before = flat@;
            let d = DnsRecord {
                record_type: g[i].record_type.clone(),
                value: g[i].value.clone(),
                ttl: g[i].ttl,
                dnssec_validated: validated,
            };
            flat.push(d);
            proof {
                lemma_dns_view_push(before, d);
                assert(g@.take(i + 1) =~= g@.take(i as int).push(g@[i as int]));
                lemma_dns_view_push(g@.take(i as int), g@[i as int]);
                assert(stamped(dns_view(g@.take(i + 1)), validated) =~= stamped(
                    dns_view(g@.take(i as int)),
                    validated,
                ).push(d@));
                assert(dns_view(flat@) =~= base + stamped(dns_view(g@.take(i + 1)), validated));
            }
            i += 1;
        }
        proof {
            assert(g@.take(g.len() as int) =~= g@);
            assert(groups@.take(gi + 1).drop_last() =~= groups@.take(gi as int));
            let pre = flat_view(groups@.take(gi as int));
            assert(flat_view(groups@.take(gi + 1)) == pre + dns_view(g@));
            assert(stamped(pre + dns_view(g@), validated) =~= stamped(pre, validated) + stamped(
                dns_view(g@),
                validated,
            ));
        }
        gi += 1;
    }
    proof {
        assert(groups@.take(groups.len() as int) =~= groups@);
    }
    sort_records(&flat)
}

/// The address to continue with: the value of the first A or AAAA record.
pub open spec fn first_address_spec(s: Seq<DnsRecordView>) -> Option<Seq<char>>
    decreases s.len(),
{
    if s.len() == 0 {
        None
    } else if s[0].record_type == "A"@ || s[0].record_type == "AAAA"@ {
        Some(s[0].value)
    } else {
        first_address_spec(s.drop_first())
    }
}

/// The value of the first A or AAAA record.
pub fn first_address(records: &Vec<DnsRecord>) -> (r: Option<String>)
    ensures
        r.deep_view() == first_address_spec(dns_view(records@)),
{
    let ghost s = dns_view(records@);
    let mut i: usize = 0;
    proof {
        assert(s.skip(0) =~= s);
    }
    while i < records.len()
        invariant
            i <= records.len(),
            s == dns_view(records@),
            first_address_spec(s) == first_address_spec(s.skip(i as int)),
        decreases records.len() - i,
    {
        proof {
            assert(s.skip(i as int).drop_first() =~= s.skip(i + 1));
            assert(s.skip(i as int)[0] == records@[i as int]@);
        }
        let t = chars_of(records[i].record_type.as_str());
        if eq_lit(&t, "A") || eq_lit(&t, "AAAA") {
            return Some(records[i].value.clone());
        }
        i += 1;
    }
    None
}

/// The answer of a lookup under `mode` when no query is to be made: with DNS
/// disabled, an empty result (no address, no PTR name, no records, no
/// errors); otherwise none, and the queries are to be made.
pub fn disabled_lookup(mode: &DnsMode) -> (r: Option<DnsLookupResult>)
    ensures
        (*mode == DnsMode::Disabled) == (r is Some),
        r matches Some(res) ==> res.resolved_ip is None && res.ptr is None && res.records@.len() == 0
            && res.errors@.len() == 0,
{
    match mode {
        DnsMode::Disabled => Some(DnsLookupResult { resolved_ip: None, ptr: None, records: Vec::new(), errors: Vec::new() }),
        _ => None,
    }
}

} // verus!
