//! The decisions of the lookup pipeline: how each source's outcome goes
//! into the record, and how results are kept in the session store.
//!
//! The pipeline itself (DNS, then RDAP, WHOIS and BGP in parallel, then
//! GeoIP) is driven by the caller, which performs the network exchanges and
//! hands their outcomes to the functions here.
use vstd::prelude::*;

use crate::dns::DnsLookupResult;
use crate::geoip::GeoRecord;
use crate::json::Json;
use crate::models::{dns_view, uuid_string, uuid_text, BgpInfo, BgpView, IpRecord, RecordView};
use crate::rdap::{parse_rdap_spec, ParsedRdap, RdapClient, RdapResult};
use crate::text::{chars_of, contains_value, push_str, split_char, split_pieces, trim, trim_all};
use crate::whois::client::WhoisResult;
use crate::whois::enrichment::{enrich_from_whois_raw, enrich_view, filled, parse_extras_spec};
use crate::whois::parse::{parse_whois, ParsedWhois, RegistryFields};
use crate::whois::client::WhoisClient;

verus! {

/// Maximum number of lookup results kept in the session store; the oldest
/// are dropped first.
pub const MAX_SESSION_RECORDS: usize = 10000;

// ---------------------------------------------------------------------------
// Merging parsed fields
// ---------------------------------------------------------------------------

/// `dest` extended with the items of `src` that it does not hold yet, in
/// order (an item repeated in `src` is added once).
pub open spec fn extend_unique_spec(dest: Seq<Seq<char>>, src: Seq<Seq<char>>) -> Seq<Seq<char>>
    decreases src.len(),
{
    if src.len() == 0 {
        dest
    } else {
        let d1 = if dest.contains(src[0]) {
            dest
        } else {
            dest.push(src[0])
        };
        extend_unique_spec(d1, src.drop_first())
    }
}

/// The record after parsed registry fields are merged in: fields already
/// set are kept, e-mail lists gain the new addresses.
pub open spec fn apply_fields(v: RecordView, f: RegistryFields) -> RecordView {
    RecordView {
        country: filled(v.country, f.country),
        owner_name: filled(v.owner_name, f.owner_name),
        address: filled(v.address, f.address),
        phone: filled(v.phone, f.phone),
        fax: filled(v.fax, f.fax),
        from_ip: filled(v.from_ip, f.from_ip),
        to_ip: filled(v.to_ip, f.to_ip),
        status: filled(v.status, f.status),
        network_name: filled(v.network_name, f.network_name),
        contact_name: filled(v.contact_name, f.contact_name),
        allocated: filled(v.allocated, f.allocated),
        cidr: filled(v.cidr, f.cidr),
        postal_code: filled(v.postal_code, f.postal_code),
        abuse_contact: filled(v.abuse_contact, f.abuse_contact),
        emails: extend_unique_spec(v.emails, f.emails),
        abuse_emails: extend_unique_spec(v.abuse_emails, f.abuse_emails),
        ..v
    }
}

/// Merging registry fields keeps every field that the record already has and
/// fills every empty one with the parsed value: the country, owner, address,
/// phone, fax, both ends of the range, status, network and contact names,
/// allocation date, CIDR, postal code and abuse contact alike. The record's
/// other parts are left as they are.
pub proof fn law_apply_fields_fills_empty(v: RecordView, f: RegistryFields)
    ensures
        ({
            let r = apply_fields(v, f);
            &&& v.country is None ==> r.country == f.country
            &&& v.country is Some ==> r.country == v.country
            &&& v.owner_name is None ==> r.owner_name == f.owner_name
            &&& v.owner_name is Some ==> r.owner_name == v.owner_name
            &&& v.address is None ==> r.address == f.address
            &&& v.address is Some ==> r.address == v.address
            &&& v.phone is None ==> r.phone == f.phone
            &&& v.phone is Some ==> r.phone == v.phone
            &&& v.fax is None ==> r.fax == f.fax
            &&& v.fax is Some ==> r.fax == v.fax
            &&& v.from_ip is None ==> r.from_ip == f.from_ip
            &&& v.from_ip is Some ==> r.from_ip == v.from_ip
            &&& v.to_ip is None ==> r.to_ip == f.to_ip
            &&& v.to_ip is Some ==> r.to_ip == v.to_ip
            &&& v.status is None ==> r.status == f.status
            &&& v.status is Some ==> r.status == v.status
            &&& v.network_name is None ==> r.network_name == f.network_name
            &&& v.network_name is Some ==> r.network_name == v.network_name
            &&& v.contact_name is None ==> r.contact_name == f.contact_name
            &&& v.contact_name is Some ==> r.contact_name == v.contact_name
            &&& v.allocated is None ==> r.allocated == f.allocated
            &&& v.allocated is Some ==> r.allocated == v.allocated
            &&& v.cidr is None ==> r.cidr == f.cidr
            &&& v.cidr is Some ==> r.cidr == v.cidr
            &&& v.postal_code is None ==> r.postal_code == f.postal_code
            &&& v.postal_code is Some ==> r.postal_code == v.postal_code
            &&& v.abuse_contact is None ==> r.abuse_contact == f.abuse_contact
            &&& v.abuse_contact is Some ==> r.abuse_contact == v.abuse_contact
            &&& r.id == v.id && r.order == v.order && r.ip == v.ip && r.host_name == v.host_name
                && r.dns_records == v.dns_records && r.lookup_errors == v.lookup_errors && r.bgp == v.bgp
        }),
{
}

/// Appends each item of `src` to `dest` if it is not already present.
pub fn extend_unique(dest: &mut Vec<String>, src: Vec<String>)
    ensures
        final(dest).deep_view() == extend_unique_spec(old(dest).deep_view(), src.deep_view()),
{
    let mut i: usize = 0;
    proof {
        assert(src.deep_view().skip(0) =~= src.deep_view());
    }
    while i < src.len()
        invariant
            i <= src.len(),
            extend_unique_spec(old(dest).deep_view(), src.deep_view()) == extend_unique_spec(
                dest.deep_view(),
                src.deep_view().skip(i as int),
            ),
        decreases src.len() - i,
    {
        let ghost rest = src.deep_view().skip(i as int);
        proof {
            assert(rest.drop_first() =~= src.deep_view().skip(i + 1));
            assert(rest[0] == src[i as int]@);
        }
        let item = src[i].clone();
        let v = crate::text::chars_of(item.as_str());
        let ghost prev = dest.deep_view();
        if !contains_value(dest, &v) {
            dest.push(item);
            proof {
                assert(dest.deep_view() =~= prev.push(v@));
            }
        }
        i += 1;
    }
    proof {
        assert(src.deep_view().skip(src.len() as int) =~= Seq::<Seq<char>>::empty());
    }
}

fn fill(dest: &mut Option<String>, src: Option<String>)
    ensures
        final(dest).deep_view() == filled(old(dest).deep_view(), src.deep_view()),
{
    if dest.is_none() {
        *dest = src;
    }
}

/// Merges parsed fields into a record: fields already set are left
/// unchanged, e-mail lists gain the addresses they do not hold yet.
fn apply_registry(
    rec: &mut IpRecord,
    country: Option<String>,
    owner_name: Option<String>,
    address: Option<String>,
    emails: Vec<String>,
    abuse_emails: Vec<String>,
    phone: Option<String>,
    fax: Option<String>,
    from_ip: Option<String>,
    to_ip: Option<String>,
    status: Option<String>,
    network_name: Option<String>,
    contact_name: Option<String>,
    allocated: Option<String>,
    cidr: Option<String>,
    postal_code: Option<String>,
    abuse_contact: Option<String>,
)
    ensures
        final(rec)@ == apply_fields(
            old(rec)@,
            RegistryFields {
                country: country.deep_view(),
                owner_name: owner_name.deep_view(),
                address: address.deep_view(),
                emails: emails.deep_view(),
                abuse_emails: abuse_emails.deep_view(),
                phone: phone.deep_view(),
                fax: fax.deep_view(),
                from_ip: from_ip.deep_view(),
                to_ip: to_ip.deep_view(),
                status: status.deep_view(),
                network_name: network_name.deep_view(),
                contact_name: contact_name.deep_view(),
                allocated: allocated.deep_view(),
                cidr: cidr.deep_view(),
                postal_code: postal_code.deep_view(),
                abuse_contact: abuse_contact.deep_view(),
            },
        ),
{
    fill(&mut rec.country, country);
    fill(&mut rec.owner_name, owner_name);
    fill(&mut rec.address, address);
    fill(&mut rec.phone, phone);
    fill(&mut rec.fax, fax);
    fill(&mut rec.from_ip, from_ip);
    fill(&mut rec.to_ip, to_ip);
    fill(&mut rec.status, status);
    fill(&mut rec.network_name, network_name);
    fill(&mut rec.contact_name, contact_name);
    fill(&mut rec.allocated, allocated);
    fill(&mut rec.cidr, cidr);
    fill(&mut rec.postal_code, postal_code);
    fill(&mut rec.abuse_contact, abuse_contact);
    extend_unique(&mut rec.emails, emails);
    extend_unique(&mut rec.abuse_emails, abuse_emails);
    proof {
        assert(rec@ =~= apply_fields(
            old(rec)@,
            RegistryFields {
                country: country.deep_view(),
                owner_name: owner_name.deep_view(),
                address: address.deep_view(),
                emails: emails.deep_view(),
                abuse_emails: abuse_emails.deep_view(),
                phone: phone.deep_view(),
                fax: fax.deep_view(),
                from_ip: from_ip.deep_view(),
                to_ip: to_ip.deep_view(),
                status: status.deep_view(),
                network_name: network_name.deep_view(),
                contact_name: contact_name.deep_view(),
                allocated: allocated.deep_view(),
                cidr: cidr.deep_view(),
                postal_code: postal_code.deep_view(),
                abuse_contact: abuse_contact.deep_view(),
            },
        ));
    }
}

/// Merges parsed RDAP fields into `rec`; fields already set are kept.
pub fn apply_rdap(rec: &mut IpRecord, p: ParsedRdap)
    ensures
        final(rec)@ == apply_fields(old(rec)@, p@),
{
    let ghost f = p@;
    let ParsedRdap {
        country,
        owner_name,
        address,
        emails,
        abuse_emails,
        phone,
        fax,
        from_ip,
        to_ip,
        status,
        network_name,
        contact_name,
        allocated,
        cidr,
        postal_code,
        abuse_contact,
    } = p;
    apply_registry(
        rec,
        country,
        owner_name,
        address,
        emails,
        abuse_emails,
        phone,
        fax,
        from_ip,
        to_ip,
        status,
        network_name,
        contact_name,
        allocated,
        cidr,
        postal_code,
        abuse_contact,
    );
}

/// Merges parsed WHOIS fields into `rec`; fields already set are kept.
pub fn apply_whois(rec: &mut IpRecord, p: ParsedWhois)
    ensures
        final(rec)@ == apply_fields(old(rec)@, p@),
{
    let ParsedWhois {
        country,
        owner_name,
        address,
        emails,
        abuse_emails,
        phone,
        fax,
        from_ip,
        to_ip,
        status,
        network_name,
        contact_name,
        allocated,
        cidr,
        postal_code,
        abuse_contact,
    } = p;
    apply_registry(
        rec,
        country,
        owner_name,
        address,
        emails,
        abuse_emails,
        phone,
        fax,
        from_ip,
        to_ip,
        status,
        network_name,
        contact_name,
        allocated,
        cidr,
        postal_code,
        abuse_contact,
    );
}

// ---------------------------------------------------------------------------
// DNS step
// ---------------------------------------------------------------------------

/// `prefix` followed by `msg`.
fn prefixed(prefix: &str, msg: &str) -> (r: String)
    ensures
        r@ == prefix@ + msg@,
{
    let mut s = prefix.to_string();
    push_str(&mut s, msg);
    s
}

/// The record after the PTR lookup of an address target.
pub open spec fn ptr_step(
    v: RecordView,
    target: Seq<char>,
    outcome: Result<Option<Seq<char>>, Seq<char>>,
) -> RecordView {
    let v1 = RecordView { ip: target, ..v };
    match outcome {
        Ok(Some(p)) => RecordView { resolved_name: Some(p), ..v1 },
        Ok(None) => v1,
        Err(e) => RecordView { lookup_errors: v1.lookup_errors.push("PTR: "@ + e), ..v1 },
    }
}

/// Records the PTR lookup of an address target: the address becomes the
/// record's IP, a PTR name becomes its resolved name, and a failure is
/// noted among the lookup errors. Returns whether DNS succeeded.
pub fn apply_ptr_outcome(rec: &mut IpRecord, target: &str, outcome: Result<Option<String>, String>) -> (ok: bool)
    ensures
        final(rec)@ == ptr_step(
            old(rec)@,
            target@,
            match outcome {
                Ok(p) => Ok(p.deep_view()),
                Err(e) => Err(e@),
            },
        ),
        ok == outcome is Ok,
{
    rec.ip = target.to_string();
    match outcome {
        Ok(Some(p)) => {
            rec.resolved_name = Some(p);
            proof {
                assert(rec@ =~= ptr_step(old(rec)@, target@, Ok(Some(p@))));
            }
            true
        },
        Ok(None) => {
            proof {
                assert(rec@ =~= ptr_step(old(rec)@, target@, Ok(None)));
            }
            true
        },
        Err(e) => {
            let ghost before = rec.lookup_errors.deep_view();
            rec.lookup_errors.push(prefixed("PTR: ", e.as_str()));
            proof {
                assert(rec.lookup_errors.deep_view() =~= before.push("PTR: "@ + e@));
                assert(rec@ =~= ptr_step(old(rec)@, target@, Err(e@)));
            }
            false
        },
    }
}

/// The record after the DNS lookup of a host name target, and the address
/// the pipeline continues with (none: the lookup stops here).
pub open spec fn dns_step(
    v: RecordView,
    target: Seq<char>,
    resolved_ip: Option<Seq<char>>,
    ptr: Option<Seq<char>>,
    records: Seq<crate::models::DnsRecordView>,
    errors: Seq<Seq<char>>,
) -> (RecordView, Option<Seq<char>>) {
    let v1 = RecordView { host_name: Some(target), dns_records: records, ..v };
    let v2 = match ptr {
        Some(p) => RecordView { resolved_name: Some(p), ..v1 },
        None => v1,
    };
    let v3 = RecordView { lookup_errors: v2.lookup_errors + errors, ..v2 };
    match resolved_ip {
        Some(ip) => (RecordView { ip: ip, ..v3 }, Some(ip)),
        None => (
            if records.len() == 0 {
                RecordView {
                    lookup_errors: v3.lookup_errors.push("DNS: no A/AAAA record resolved"@),
                    ..v3
                }
            } else {
                v3
            },
            None,
        ),
    }
}

/// Records the DNS lookup of a host name target and returns the address to
/// continue with. When no address was resolved and no record at all came
/// back, the failure is noted among the lookup errors.
pub fn apply_dns_result(rec: &mut IpRecord, target: &str, result: DnsLookupResult) -> (r: Option<String>)
    ensures
        (final(rec)@, r.deep_view()) == dns_step(
            old(rec)@,
            target@,
            result.resolved_ip.deep_view(),
            result.ptr.deep_view(),
            dns_view(result.records@),
            result.errors.deep_view(),
        ),
{
    let ghost res = result;
    let DnsLookupResult { resolved_ip, ptr, records, errors } = result;
    rec.host_name = Some(target.to_string());
    rec.dns_records = records;
    match ptr {
        Some(p) => {
            rec.resolved_name = Some(p);
        },
        None => {},
    }
    crate::text::append_strings(&mut rec.lookup_errors, &errors);
    let ghost v3 = rec@;
    match resolved_ip {
        Some(ip) => {
            rec.ip = ip.clone();
            proof {
                assert(rec@ =~= RecordView { ip: ip@, ..v3 });
            }
            Some(ip)
        },
        None => {
            if rec.dns_records.len() == 0 {
                let ghost before = rec.lookup_errors.deep_view();
                rec.lookup_errors.push("DNS: no A/AAAA record resolved".to_string());
                proof {
                    assert(rec.lookup_errors.deep_view() =~= before.push(
                        "DNS: no A/AAAA record resolved"@,
                    ));
                    assert(rec@ =~= RecordView {
                        lookup_errors: v3.lookup_errors.push("DNS: no A/AAAA record resolved"@),
                        ..v3
                    });
                }
            }
            None
        },
    }
}

// ---------------------------------------------------------------------------
// Registry, routing and location sources
// ---------------------------------------------------------------------------

/// The record after the RDAP outcome, and whether RDAP succeeded.
pub open spec fn rdap_step(v: RecordView, rdap: Result<Json, Seq<char>>) -> (RecordView, bool) {
    match rdap {
        Ok(j) => (
            apply_fields(
                RecordView { raw_rdap: Some(j), whois_source: Some("RDAP"@), ..v },
                parse_rdap_spec(j),
            ),
            true,
        ),
        Err(e) => (RecordView { lookup_errors: v.lookup_errors.push("RDAP: "@ + e), ..v }, false),
    }
}

/// The record after the WHOIS outcome, and whether WHOIS became the primary
/// source (RDAP failed and WHOIS answered).
pub open spec fn whois_merge_step(
    v: RecordView,
    rdap_ok: bool,
    whois: Result<(Seq<char>, Seq<char>), Seq<char>>,
) -> (RecordView, bool) {
    match whois {
        Ok((raw, server)) => {
            let v1 = RecordView { raw_whois: Some(raw), ..v };
            if rdap_ok {
                (enrich_view(v1, parse_whois(raw), parse_extras_spec(raw)), false)
            } else {
                (apply_fields(RecordView { whois_source: Some(server), ..v1 }, parse_whois(raw)), true)
            }
        },
        Err(e) => (RecordView { lookup_errors: v.lookup_errors.push("WHOIS: "@ + e), ..v }, false),
    }
}

/// The record after the BGP outcome (a failure leaves it unchanged).
pub open spec fn bgp_step(v: RecordView, bgp: Option<BgpView>) -> RecordView {
    match bgp {
        Some(b) => RecordView { bgp: Some(b), ..v },
        None => v,
    }
}

/// The record after the GeoIP outcome: (latitude bits, longitude bits, city,
/// country).
pub open spec fn geo_step(
    v: RecordView,
    geo: Option<(u64, u64, Option<Seq<char>>, Option<Seq<char>>)>,
) -> RecordView {
    match geo {
        Some((lat, lon, city, country)) => RecordView {
            geo_lat_bits: Some(lat),
            geo_lon_bits: Some(lon),
            geo_city: city,
            geo_country: country,
            ..v
        },
        None => v,
    }
}

/// What the merge tells the caller.
#[derive(Debug)]
pub struct MergeOutcome {
    /// RDAP answered.
    pub rdap_ok: bool,
    /// RDAP failed and WHOIS became the primary source.
    pub fallback: bool,
    /// At least one registry source answered, so the record may be cached.
    pub cacheable: bool,
}

/// The view of a GeoIP result.
pub open spec fn geo_view(g: Option<GeoRecord>) -> Option<(u64, u64, Option<Seq<char>>, Option<Seq<char>>)> {
    match g {
        Some(g) => Some((g.lat_bits, g.lon_bits, g.city.deep_view(), g.country.deep_view())),
        None => None,
    }
}

/// The view of an RDAP outcome.
pub open spec fn rdap_view(r: Result<RdapResult, String>) -> Result<Json, Seq<char>> {
    match r {
        Ok(res) => Ok(res.json),
        Err(e) => Err(e@),
    }
}

/// The view of a WHOIS outcome: (raw text, server).
pub open spec fn whois_view(r: Result<WhoisResult, String>) -> Result<(Seq<char>, Seq<char>), Seq<char>> {
    match r {
        Ok(w) => Ok((w.raw@, w.server@)),
        Err(e) => Err(e@),
    }
}

fn merge_rdap(rec: &mut IpRecord, rdap: Result<RdapResult, String>) -> (ok: bool)
    ensures
        (final(rec)@, ok) == rdap_step(old(rec)@, rdap_view(rdap)),
{
    match rdap {
        Ok(res) => {
            let RdapResult { json, url } = res;
            let parsed = RdapClient::parse(&json);
            rec.raw_rdap = Some(json);
            rec.whois_source = Some("RDAP".to_string());
            proof {
                reveal_strlit("RDAP");
            }
            apply_rdap(rec, parsed);
            true
        },
        Err(e) => {
            let ghost before = rec.lookup_errors.deep_view();
            rec.lookup_errors.push(prefixed("RDAP: ", e.as_str()));
            proof {
                assert(rec.lookup_errors.deep_view() =~= before.push("RDAP: "@ + e@));
                assert(rec@ =~= RecordView { lookup_errors: old(rec)@.lookup_errors.push("RDAP: "@ + e@), ..old(rec)@ });
            }
            false
        },
    }
}

fn merge_whois(rec: &mut IpRecord, rdap_ok: bool, whois: Result<WhoisResult, String>) -> (fallback: bool)
    ensures
        (final(rec)@, fallback) == whois_merge_step(old(rec)@, rdap_ok, whois_view(whois)),
{
    match whois {
        Ok(w) => {
            let WhoisResult { raw, server } = w;
            rec.raw_whois = Some(raw.clone());
            if rdap_ok {
                let ghost before = *rec;
                enrich_from_whois_raw(rec, raw.as_str());
                proof {
                    crate::whois::enrichment::lemma_enriched_view(
                        before,
                        *rec,
                        parse_whois(raw@),
                        parse_extras_spec(raw@),
                    );
                }
                false
            } else {
                rec.whois_source = Some(server);
                let parsed = WhoisClient::parse(raw.as_str());
                apply_whois(rec, parsed);
                true
            }
        },
        Err(e) => {
            let ghost before = rec.lookup_errors.deep_view();
            rec.lookup_errors.push(prefixed("WHOIS: ", e.as_str()));
            proof {
                assert(rec.lookup_errors.deep_view() =~= before.push("WHOIS: "@ + e@));
                assert(rec@ =~= RecordView { lookup_errors: old(rec)@.lookup_errors.push("WHOIS: "@ + e@), ..old(rec)@ });
            }
            false
        },
    }
}

fn merge_bgp(rec: &mut IpRecord, bgp: Option<BgpInfo>)
    ensures
        final(rec)@ == bgp_step(
            old(rec)@,
            match bgp {
                Some(b) => Some(b@),
                None => None,
            },
        ),
{
    match bgp {
        Some(b) => {
            rec.bgp = Some(b);
            proof {
                assert(rec@ =~= RecordView { bgp: Some(b@), ..old(rec)@ });
            }
        },
        None => {},
    }
}

fn merge_geo(rec: &mut IpRecord, geo: Option<GeoRecord>)
    ensures
        final(rec)@ == geo_step(old(rec)@, geo_view(geo)),
{
    match geo {
        Some(g) => {
            let GeoRecord { lat_bits, lon_bits, city, country } = g;
            rec.geo_lat_bits = Some(lat_bits);
            rec.geo_lon_bits = Some(lon_bits);
            rec.geo_city = city;
            rec.geo_country = country;
            proof {
                assert(rec@ =~= RecordView {
                    geo_lat_bits: Some(lat_bits),
                    geo_lon_bits: Some(lon_bits),
                    geo_city: city.deep_view(),
                    geo_country: country.deep_view(),
                    ..old(rec)@
                });
            }
        },
        None => {},
    }
}

/// Merges the registry, routing and location outcomes into the record:
/// RDAP first (its fields win), then WHOIS (enrichment when RDAP answered,
/// primary source otherwise), then BGP and GeoIP.
pub fn merge_sources(
    rec: &mut IpRecord,
    rdap: Result<RdapResult, String>,
    whois: Result<WhoisResult, String>,
    bgp: Option<BgpInfo>,
    geo: Option<GeoRecord>,
) -> (r: MergeOutcome)
    ensures
        ({
            let (v1, ok) = rdap_step(old(rec)@, rdap_view(rdap));
            let (v2, fb) = whois_merge_step(v1, ok, whois_view(whois));
            let v3 = bgp_step(
                v2,
                match bgp {
                    Some(b) => Some(b@),
                    None => None,
                },
            );
            let v4 = geo_step(v3, geo_view(geo));
            &&& final(rec)@ == v4
            &&& r.rdap_ok == ok
            &&& r.fallback == fb
            &&& r.cacheable == (ok || v4.raw_whois is Some)
        }),
{
    let rdap_ok = merge_rdap(rec, rdap);
    let fallback = merge_whois(rec, rdap_ok, whois);
    merge_bgp(rec, bgp);
    merge_geo(rec, geo);
    let cacheable = rdap_ok || rec.raw_whois.is_some();
    MergeOutcome { rdap_ok, fallback, cacheable }
}

// ---------------------------------------------------------------------------
// Session store
// ---------------------------------------------------------------------------

/// The views of a list of records.
pub open spec fn views(s: Seq<IpRecord>) -> Seq<RecordView> {
    s.map_values(|r: IpRecord| r@)
}

/// The newest `MAX_SESSION_RECORDS` records of `s`.
pub open spec fn capped(s: Seq<RecordView>) -> Seq<RecordView> {
    if s.len() > MAX_SESSION_RECORDS {
        s.skip(s.len() - MAX_SESSION_RECORDS)
    } else {
        s
    }
}

/// Drops the oldest records beyond the session cap.
fn enforce_cap(store: &mut Vec<IpRecord>)
    ensures
        views(final(store)@) == capped(views(old(store)@)),
{
    let n = store.len();
    if n > MAX_SESSION_RECORDS {
        let tail = store.split_off(n - MAX_SESSION_RECORDS);
        *store = tail;
        proof {
            assert(views(store@) =~= capped(views(old(store)@)));
        }
    }
}

/// Adds a record to the session store, dropping the oldest records when
/// the cap is exceeded.
pub fn push_record(store: &mut Vec<IpRecord>, record: IpRecord)
    ensures
        views(final(store)@) == capped(views(old(store)@).push(record@)),
{
    let ghost r = record@;
    store.push(record);
    proof {
        assert(views(store@) =~= views(old(store)@).push(r));
    }
    enforce_cap(store);
}

/// Adds the records of a bulk lookup to the session store, dropping the
/// oldest records when the cap is exceeded.
pub fn store_results(store: &mut Vec<IpRecord>, results: Vec<IpRecord>)
    ensures
        views(final(store)@) == capped(views(old(store)@) + views(results@)),
{
    let n = results.len();
    let mut rest = results;
    let ghost all = views(rest@);
    let mut i: usize = 0;
    proof {
        assert(views(store@) =~= views(old(store)@) + all.take(0));
        assert(all.len() == n);
        assert(all.skip(0) =~= all);
    }
    while rest.len() > 0
        invariant
            i + rest.len() == all.len(),
            all.len() <= usize::MAX,
            views(rest@) == all.skip(i as int),
            views(store@) == views(old(store)@) + all.take(i as int),
        decreases rest.len(),
    {
        let ghost before = store@;
        let ghost old_rest = rest@;
        let r = rest.remove(0);
        proof {
            assert(views(old_rest)[0] == r@);
            assert forall|k: int| 0 <= k < rest@.len() implies views(rest@)[k] == all.skip(i + 1)[k] by {
                assert(rest@[k] == old_rest[k + 1]);
                assert(views(old_rest)[k + 1] == all.skip(i as int)[k + 1]);
            }
            assert(views(rest@) =~= all.skip(i + 1));
        }
        store.push(r);
        proof {
            assert(all.take(i + 1) =~= all.take(i as int).push(r@));
            assert(views(store@) =~= views(before).push(r@));
        }
        i += 1;
    }
    proof {
        assert(all.take(i as int) =~= all);
    }
    enforce_cap(store);
}

// ---------------------------------------------------------------------------
// Ordering and selection
// ---------------------------------------------------------------------------

/// `s` with `x` inserted after every element whose order is at most `x`'s.
pub open spec fn insert_by_order(s: Seq<RecordView>, x: RecordView) -> Seq<RecordView>
    decreases s.len(),
{
    if s.len() == 0 {
        seq![x]
    } else if s.last().order <= x.order {
        s.push(x)
    } else {
        insert_by_order(s.drop_last(), x).push(s.last())
    }
}

/// The stable sort of `s` by `order` (`sort_by_key(|r| r.order)`).
pub open spec fn sort_by_order(s: Seq<RecordView>) -> Seq<RecordView>
    decreases s.len(),
{
    if s.len() == 0 {
        seq![]
    } else {
        insert_by_order(sort_by_order(s.drop_last()), s.last())
    }
}

/// Inserting at `j` (after the last element not above `x`) is what
/// `insert_by_order` describes.
proof fn lemma_insert_at(s: Seq<RecordView>, x: RecordView, j: int)
    requires
        0 <= j <= s.len(),
        forall|k: int| j <= k < s.len() ==> #[trigger] s[k].order > x.order,
        j == 0 || s[j - 1].order <= x.order,
    ensures
        insert_by_order(s, x) == s.take(j) + seq![x] + s.skip(j),
    decreases s.len(),
{
    if s.len() == 0 {
        assert(s.take(j) + seq![x] + s.skip(j) =~= seq![x]);
    } else if j == s.len() {
        assert(s.take(j) + seq![x] + s.skip(j) =~= s.push(x));
    } else {
        let t = s.drop_last();
        assert forall|k: int| j <= k < t.len() implies #[trigger] t[k].order > x.order by {
            assert(t[k] == s[k]);
        }
        lemma_insert_at(t, x, j);
        assert(t.take(j) + seq![x] + t.skip(j) + seq![s.last()] =~= s.take(j) + seq![x] + s.skip(j));
    }
}

/// Sorts lookup results by their order, keeping the relative order of
/// results with the same order.
pub fn sort_by_order_exec(results: Vec<IpRecord>) -> (r: Vec<IpRecord>)
    ensures
        views(r@) == sort_by_order(views(results@)),
{
    let n = results.len();
    let ghost input = views(results@);
    let mut rest = results;
    let mut out: Vec<IpRecord> = Vec::new();
    let mut i: usize = 0;
    proof {
        assert(views(out@) =~= sort_by_order(input.take(0)));
        assert(input.len() == n);
        assert(input.skip(0) =~= input);
    }
    while rest.len() > 0
        invariant
            i + rest.len() == input.len(),
            input.len() <= usize::MAX,
            views(rest@) == input.skip(i as int),
            views(out@) == sort_by_order(input.take(i as int)),
        decreases rest.len(),
    {
        let ghost old_rest = rest@;
        let x = rest.remove(0);
        proof {
            assert(views(old_rest)[0] == x@);
            assert forall|k: int| 0 <= k < rest@.len() implies views(rest@)[k] == input.skip(i + 1)[k] by {
                assert(rest@[k] == old_rest[k + 1]);
                assert(views(old_rest)[k + 1] == input.skip(i as int)[k + 1]);
            }
            assert(views(rest@) =~= input.skip(i + 1));
        }
        let ghost s = views(out@);
        let mut j: usize = out.len();
        while j > 0 && out[j - 1].order > x.order
            invariant
                j <= out.len(),
                s == views(out@),
                forall|k: int| j <= k < s.len() ==> #[trigger] s[k].order > x.order,
            decreases j,
        {
            j -= 1;
        }
        proof {
            lemma_insert_at(s, x@, j as int);
            assert(input.take(i + 1).drop_last() =~= input.take(i as int));
            assert(input.take(i + 1).last() == x@);
        }
        let ghost xv = x@;
        out.insert(j, x);
        proof {
            assert(views(out@) =~= s.take(j as int) + seq![xv] + s.skip(j as int));
        }
        i += 1;
    }
    proof {
        assert(input.take(i as int) =~= input);
    }
    out
}

/// The identifiers asked for: the comma-separated pieces of `ids`, trimmed.
pub open spec fn wanted_ids(ids: Seq<char>) -> Seq<Seq<char>> {
    split_char(ids, ',').map_values(|t: Seq<char>| trim(t))
}

/// The records whose identifier text is among `ids`, in order.
pub open spec fn select_by_ids(s: Seq<RecordView>, ids: Seq<char>) -> Seq<RecordView>
    decreases s.len(),
{
    if s.len() == 0 {
        seq![]
    } else if wanted_ids(ids).contains(uuid_text(s.last().id)) {
        select_by_ids(s.drop_last(), ids).push(s.last())
    } else {
        select_by_ids(s.drop_last(), ids)
    }
}

/// Keeps the records whose identifier (in hyphenated text form) is one of
/// the comma-separated `ids`.
pub fn filter_by_ids(records: Vec<IpRecord>, ids: &str) -> (r: Vec<IpRecord>)
    ensures
        views(r@) == select_by_ids(views(records@), ids@),
{
    let wanted = trim_all(split_pieces(ids, ','));
    let n = records.len();
    let ghost input = views(records@);
    let mut rest = records;
    let mut out: Vec<IpRecord> = Vec::new();
    let mut i: usize = 0;
    proof {
        assert(views(out@) =~= select_by_ids(input.take(0), ids@));
        assert(input.len() == n);
        assert(input.skip(0) =~= input);
    }
    while rest.len() > 0
        invariant
            i + rest.len() == input.len(),
            input.len() <= usize::MAX,
            views(rest@) == input.skip(i as int),
            views(out@) == select_by_ids(input.take(i as int), ids@),
            wanted.deep_view() == wanted_ids(ids@),
        decreases rest.len(),
    {
        let ghost old_rest = rest@;
        let x = rest.remove(0);
        proof {
            assert(views(old_rest)[0] == x@);
            assert forall|k: int| 0 <= k < rest@.len() implies views(rest@)[k] == input.skip(i + 1)[k] by {
                assert(rest@[k] == old_rest[k + 1]);
                assert(views(old_rest)[k + 1] == input.skip(i as int)[k + 1]);
            }
            assert(views(rest@) =~= input.skip(i + 1));
            assert(input.take(i + 1).drop_last() =~= input.take(i as int));
            assert(input.take(i + 1).last() == x@);
        }
        let text = uuid_string(x.id);
        let tv = chars_of(text.as_str());
        if contains_value(&wanted, &tv) {
            let ghost before = out@;
            out.push(x);
            proof {
                assert(views(out@) =~= views(before).push(x@));
            }
        }
        i += 1;
    }
    proof {
        assert(input.take(i as int) =~= input);
    }
    out
}

// ---------------------------------------------------------------------------
// Laws
// ---------------------------------------------------------------------------

/// Whether no two items of `s` are equal.
pub open spec fn no_duplicates(s: Seq<Seq<char>>) -> bool {
    forall|i: int, j: int| 0 <= i < j < s.len() ==> s[i] != s[j]
}

/// Extending a list with `extend_unique` keeps the list as a prefix, adds
/// every item of `src`, adds nothing else, and adds no duplicate: a list
/// without duplicates stays without duplicates.
pub proof fn law_extend_unique(dest: Seq<Seq<char>>, src: Seq<Seq<char>>)
    ensures
        ({
            let r = extend_unique_spec(dest, src);
            &&& dest.len() <= r.len()
            &&& r.take(dest.len() as int) == dest
            &&& forall|x: Seq<char>| src.contains(x) ==> r.contains(x)
            &&& forall|x: Seq<char>| r.contains(x) ==> dest.contains(x) || src.contains(x)
            &&& no_duplicates(dest) ==> no_duplicates(r)
        }),
    decreases src.len(),
{
    if src.len() > 0 {
        let a = src[0];
        let d1 = if dest.contains(a) {
            dest
        } else {
            dest.push(a)
        };
        let t = src.drop_first();
        law_extend_unique(d1, t);
        let r = extend_unique_spec(dest, src);
        assert(r == extend_unique_spec(d1, t));
        assert(d1.take(dest.len() as int) =~= dest);
        assert(r.take(dest.len() as int) =~= d1.take(dest.len() as int).take(dest.len() as int)) by {
            assert(r.take(d1.len() as int) == d1);
        }
        assert forall|x: Seq<char>| src.contains(x) implies r.contains(x) by {
            let k = choose|k: int| 0 <= k < src.len() && src[k] == x;
            if k == 0 {
                assert(d1.contains(a)) by {
                    if !dest.contains(a) {
                        assert(d1[dest.len() as int] == a);
                    }
                }
                let m = choose|m: int| 0 <= m < d1.len() && d1[m] == a;
                assert(r.take(d1.len() as int)[m] == a);
                assert(r[m] == a);
            } else {
                assert(t[k - 1] == x);
            }
        }
        assert forall|x: Seq<char>| r.contains(x) implies dest.contains(x) || src.contains(x) by {
            if d1.contains(x) {
                let m = choose|m: int| 0 <= m < d1.len() && d1[m] == x;
                if m < dest.len() {
                    assert(dest[m] == x);
                } else {
                    assert(src[0] == x);
                }
            } else {
                assert(t.contains(x));
                let m = choose|m: int| 0 <= m < t.len() && t[m] == x;
                assert(src[m + 1] == x);
            }
        }
        if no_duplicates(dest) {
            assert(no_duplicates(d1)) by {
                if !dest.contains(a) {
                    assert forall|i: int, j: int| 0 <= i < j < d1.len() implies d1[i] != d1[j] by {
                        if j == dest.len() {
                            assert(d1[i] == dest[i]);
                        }
                    }
                }
            }
        }
    } else {
        assert(dest.take(dest.len() as int) =~= dest);
    }
}

/// The session store never holds more than `MAX_SESSION_RECORDS` records;
/// it keeps the newest ones, in order, so a record just added is the last.
pub proof fn law_session_cap(s: Seq<RecordView>, x: RecordView)
    ensures
        capped(s).len() <= MAX_SESSION_RECORDS,
        capped(s).len() == if s.len() > MAX_SESSION_RECORDS {
            MAX_SESSION_RECORDS as nat
        } else {
            s.len()
        },
        capped(s) == s.skip(s.len() - capped(s).len()),
        capped(s.push(x)).last() == x,
        s.len() <= MAX_SESSION_RECORDS ==> capped(s) == s,
{
    let c = s.push(x);
    if c.len() > MAX_SESSION_RECORDS {
        assert(capped(c).last() == c[c.len() - 1]);
    }
    if s.len() <= MAX_SESSION_RECORDS {
        assert(s.skip(0) =~= s);
    }
}

/// Whether `s` is ordered by `order`.
pub open spec fn ordered(s: Seq<RecordView>) -> bool {
    forall|i: int, j: int| 0 <= i < j < s.len() ==> s[i].order <= s[j].order
}

proof fn lemma_insert_by_order(s: Seq<RecordView>, x: RecordView)
    requires
        ordered(s),
    ensures
        ordered(insert_by_order(s, x)),
        insert_by_order(s, x).len() == s.len() + 1,
        insert_by_order(s, x).to_multiset() == s.to_multiset().insert(x),
        forall|i: int| 0 <= i < insert_by_order(s, x).len() ==> #[trigger] insert_by_order(s, x)[i] == x
            || s.contains(insert_by_order(s, x)[i]),
    decreases s.len(),
{
    broadcast use vstd::seq_lib::group_to_multiset_ensures;

    let r = insert_by_order(s, x);
    if s.len() == 0 {
        assert(r =~= seq![x]);
        assert(seq![x] =~= Seq::<RecordView>::empty().push(x));
        assert(s =~= Seq::<RecordView>::empty());
    } else if s.last().order <= x.order {
        assert forall|i: int| 0 <= i < r.len() implies #[trigger] r[i] == x || s.contains(r[i]) by {
            if i < s.len() {
                assert(r[i] == s[i]);
            }
        }
    } else {
        let t = s.drop_last();
        assert(ordered(t));
        lemma_insert_by_order(t, x);
        let q = insert_by_order(t, x);
        assert(r == q.push(s.last()));
        assert forall|i: int| 0 <= i < q.len() implies q[i].order <= s.last().order by {
            if q[i] != x {
                assert(t.contains(q[i]));
                let j = choose|j: int| 0 <= j < t.len() && t[j] == q[i];
                assert(s[j] == t[j]);
            }
        }
        assert forall|i: int, j: int| 0 <= i < j < r.len() implies r[i].order <= r[j].order by {
            if j == r.len() - 1 {
                assert(r[i] == q[i]);
            } else {
                assert(r[i] == q[i] && r[j] == q[j]);
            }
        }
        assert forall|i: int| 0 <= i < r.len() implies #[trigger] r[i] == x || s.contains(r[i]) by {
            if i < q.len() {
                assert(r[i] == q[i]);
                if q[i] != x {
                    assert(t.contains(q[i]));
                    let j = choose|j: int| 0 <= j < t.len() && t[j] == q[i];
                    assert(s[j] == q[i]);
                }
            } else {
                assert(r[i] == s[s.len() - 1]);
            }
        }
        assert(s =~= t.push(s.last()));
        assert(r.to_multiset() =~= s.to_multiset().insert(x));
    }
}

/// Sorting lookup results by order yields a list ordered by `order` that
/// holds exactly the same results.
pub proof fn law_sort_by_order(s: Seq<RecordView>)
    ensures
        ordered(sort_by_order(s)),
        sort_by_order(s).to_multiset() == s.to_multiset(),
        sort_by_order(s).len() == s.len(),
    decreases s.len(),
{
    broadcast use vstd::seq_lib::group_to_multiset_ensures;

    if s.len() == 0 {
        assert(sort_by_order(s) =~= s);
    } else {
        let t = s.drop_last();
        law_sort_by_order(t);
        lemma_insert_by_order(sort_by_order(t), s.last());
        assert(s =~= t.push(s.last()));
    }
}

/// A cached record served for a new request: the stored record, carrying the
/// position of the request in place of the one it was stored under.
pub fn serve_cached(cached: IpRecord, order: u32) -> (r: IpRecord)
    ensures
        r@ == (RecordView { order: order, ..cached@ }),
{
    let mut r = cached;
    r.order = order;
    r
}

} // verus!
