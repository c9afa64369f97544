//! Enrichment of an RDAP-filled record from the raw WHOIS text.
//!
//! RDAP is the primary source: enrichment only fills fields that are still
//! empty, and each field it fills raises the matching `*_enriched` flag.
use vstd::prelude::*;

use crate::dates::{normalize_date, normalize_date_spec};
use crate::models::{IpRecord, RecordView};
use crate::text::{
    ascii_lower, chars_of, eq_lit, join, join_strings, lemma_lines_end, lines, lower_vec,
    next_line, split_once_char, split_once_char_exec, string_of, trim, trim_vec,
};
use crate::whois::client::WhoisClient;
use crate::whois::parse::{keep_first, keep_first_exec, parse_whois, ParsedWhois, RegistryFields};

verus! {

// ---------------------------------------------------------------------------
// Extra fields
// ---------------------------------------------------------------------------

/// The scan state of the extra fields.
#[verifier::ext_equal]
pub struct ExtrasScan {
    pub remarks: Seq<Seq<char>>,
    pub updated_at: Option<Seq<char>>,
    pub ctry: Option<Seq<char>>,
}

/// Fields of a WHOIS response that the standard parse does not keep.
#[derive(Clone, Debug)]
pub struct EnrichmentExtras {
    /// `Remarks:`, `Comment:` and `Note:` values, joined with `" | "`.
    pub remarks: Option<String>,
    /// First `Updated:`, `Changed:`, `last-modified:` or `last-update:` date,
    /// normalized.
    pub updated_at: Option<String>,
    /// First `Ctry:` value.
    pub ctry: Option<String>,
}

/// What a lower-cased key contributes to the extras.
pub open spec fn extras_apply(e: ExtrasScan, key: Seq<char>, v: Seq<char>) -> ExtrasScan {
    if key == "remarks"@ || key == "comment"@ || key == "note"@ {
        ExtrasScan { remarks: e.remarks.push(v), ..e }
    } else if key == "updated"@ || key == "changed"@ || key == "last-modified"@ || key
        == "last-update"@ {
        ExtrasScan { updated_at: keep_first(e.updated_at, normalize_date_spec(v)), ..e }
    } else if key == "ctry"@ {
        ExtrasScan { ctry: keep_first(e.ctry, v), ..e }
    } else {
        e
    }
}

/// The effect of one raw line.
pub open spec fn extras_step(e: ExtrasScan, raw: Seq<char>) -> ExtrasScan {
    let line = trim(raw);
    if line.len() == 0 || line[0] == '%' || line[0] == '#' {
        e
    } else {
        match split_once_char(line, ':') {
            None => e,
            Some((k, v0)) => {
                let v = trim(v0);
                if v.len() == 0 {
                    e
                } else {
                    extras_apply(e, ascii_lower(trim(k)), v)
                }
            },
        }
    }
}

pub open spec fn extras_fold(ls: Seq<Seq<char>>, e: ExtrasScan) -> ExtrasScan
    decreases ls.len(),
{
    if ls.len() == 0 {
        e
    } else {
        extras_fold(ls.drop_first(), extras_step(e, ls[0]))
    }
}

/// The extras of a raw response: (remarks, updated_at, ctry).
pub open spec fn parse_extras_spec(raw: Seq<char>) -> (
    Option<Seq<char>>,
    Option<Seq<char>>,
    Option<Seq<char>>,
) {
    let e = extras_fold(lines(raw), ExtrasScan { remarks: seq![], updated_at: None, ctry: None });
    (
        if e.remarks.len() == 0 {
            None
        } else {
            Some(join(e.remarks, " | "@))
        },
        e.updated_at,
        e.ctry,
    )
}

struct ExtrasScanner {
    remarks: Vec<String>,
    updated_at: Option<String>,
    ctry: Option<String>,
}

impl ExtrasScanner {
    spec fn model(&self) -> ExtrasScan {
        ExtrasScan {
            remarks: self.remarks.deep_view(),
            updated_at: self.updated_at.deep_view(),
            ctry: self.ctry.deep_view(),
        }
    }

    fn step(&mut self, raw: &[char])
        ensures
            final(self).model() == extras_step(old(self).model(), raw@),
    {
        let line = trim_vec(raw);
        if line.len() == 0 || line[0] == '%' || line[0] == '#' {
            return ;
        }
        match split_once_char_exec(&line, ':') {
            None => {},
            Some((k0, v0)) => {
                let v = trim_vec(&v0);
                if v.len() > 0 {
                    let kt = trim_vec(&k0);
                    let key = lower_vec(&kt);
                    if eq_lit(&key, "remarks") || eq_lit(&key, "comment") || eq_lit(&key, "note") {
                        self.remarks.push(string_of(&v));
                        proof {
                            assert(self.remarks.deep_view() =~= old(self).remarks.deep_view().push(
                                v@,
                            ));
                        }
                    } else if eq_lit(&key, "updated") || eq_lit(&key, "changed") || eq_lit(
                        &key,
                        "last-modified",
                    ) || eq_lit(&key, "last-update") {
                        if self.updated_at.is_none() {
                            let vs = string_of(&v);
                            self.updated_at = Some(normalize_date(vs.as_str()));
                        }
                    } else if eq_lit(&key, "ctry") {
                        keep_first_exec(&mut self.ctry, &v);
                    }
                }
            },
        }
    }
}

/// Parses the enrichment-specific extra fields of a raw WHOIS text.
pub fn parse_extras(raw: &str) -> (r: EnrichmentExtras)
    ensures
        (r.remarks.deep_view(), r.updated_at.deep_view(), r.ctry.deep_view())
            == parse_extras_spec(raw@),
{
    let v = chars_of(raw);
    let mut sc = ExtrasScanner { remarks: Vec::new(), updated_at: None, ctry: None };
    let mut pos: usize = 0;
    proof {
        assert(v@.skip(0) =~= v@);
        assert(sc.remarks.deep_view() =~= Seq::<Seq<char>>::empty());
    }
    while pos < v.len()
        invariant
            pos <= v.len(),
            v@ == raw@,
            extras_fold(lines(v@), ExtrasScan { remarks: seq![], updated_at: None, ctry: None })
                == extras_fold(lines(v@.skip(pos as int)), sc.model()),
        decreases v.len() - pos,
    {
        let (line, next) = next_line(&v, pos);
        sc.step(&line);
        proof {
            let ls = lines(v@.skip(pos as int));
            assert(ls.drop_first() =~= lines(v@.skip(next as int)));
            assert(ls[0] == line@);
        }
        pos = next;
    }
    proof {
        lemma_lines_end(v@);
    }
    let remarks = if sc.remarks.len() == 0 {
        None
    } else {
        Some(join_strings(&sc.remarks, " | "))
    };
    EnrichmentExtras { remarks, updated_at: sc.updated_at, ctry: sc.ctry }
}

// ---------------------------------------------------------------------------
// Enrichment
// ---------------------------------------------------------------------------

/// `dest` after `fill_opt(dest, src)`: the source only where `dest` is empty.
pub open spec fn filled(dest: Option<Seq<char>>, src: Option<Seq<char>>) -> Option<Seq<char>> {
    if dest is None {
        src
    } else {
        dest
    }
}

/// Whether filling `dest` from `src` puts a value into an empty field.
pub open spec fn gets_filled(dest: Option<Seq<char>>, src: Option<Seq<char>>) -> bool {
    dest is None && src is Some
}

/// The first of two optional values that is present.
pub open spec fn or_else(a: Option<Seq<char>>, b: Option<Seq<char>>) -> Option<Seq<char>> {
    if a is Some {
        a
    } else {
        b
    }
}

/// The allocation date that WHOIS offers, normalized.
pub open spec fn whois_allocated(p: RegistryFields) -> Option<Seq<char>> {
    match p.allocated {
        Some(d) => Some(normalize_date_spec(d)),
        None => None,
    }
}

/// The fields that enrichment leaves alone.
pub open spec fn same_identity(a: IpRecord, b: IpRecord) -> bool {
    &&& a.id == b.id && a.order == b.order && a.ip == b.ip
    &&& a.whois_source == b.whois_source && a.host_name == b.host_name
    &&& a.resolved_name == b.resolved_name && a.raw_whois == b.raw_whois
    &&& a.raw_rdap == b.raw_rdap && a.geo_lat_bits == b.geo_lat_bits
    &&& a.geo_lon_bits == b.geo_lon_bits && a.geo_city == b.geo_city
    &&& a.geo_country == b.geo_country && a.dns_records == b.dns_records
    &&& a.lookup_errors == b.lookup_errors && a.bgp == b.bgp
}

/// What `enrich_from_whois_raw` makes of `o`, given the parsed response `p`
/// and the extras `x` = (remarks, updated_at, ctry).
pub open spec fn enriched(
    o: IpRecord,
    r: IpRecord,
    p: RegistryFields,
    x: (Option<Seq<char>>, Option<Seq<char>>, Option<Seq<char>>),
) -> bool {
    let country_src = or_else(p.country, x.2);
    &&& same_identity(o, r)
    &&& r.address.deep_view() == filled(o.address.deep_view(), p.address)
    &&& r.address_enriched == (o.address_enriched || gets_filled(o.address.deep_view(), p.address))
    &&& r.country.deep_view() == filled(o.country.deep_view(), country_src)
    &&& r.country_enriched == (o.country_enriched || gets_filled(o.country.deep_view(), country_src))
    &&& r.phone.deep_view() == filled(o.phone.deep_view(), p.phone)
    &&& r.phone_enriched == (o.phone_enriched || gets_filled(o.phone.deep_view(), p.phone))
    &&& r.fax.deep_view() == filled(o.fax.deep_view(), p.fax)
    &&& r.fax_enriched == (o.fax_enriched || gets_filled(o.fax.deep_view(), p.fax))
    &&& r.owner_name.deep_view() == filled(o.owner_name.deep_view(), p.owner_name)
    &&& r.owner_enriched == (o.owner_enriched || gets_filled(o.owner_name.deep_view(), p.owner_name))
    &&& r.network_name.deep_view() == filled(o.network_name.deep_view(), p.network_name)
    &&& r.remarks.deep_view() == filled(o.remarks.deep_view(), x.0)
    &&& r.remarks_enriched == (o.remarks_enriched || gets_filled(o.remarks.deep_view(), x.0))
    &&& r.allocated.deep_view() == filled(o.allocated.deep_view(), whois_allocated(p))
    &&& r.updated_at.deep_view() == filled(o.updated_at.deep_view(), x.1)
    &&& r.dates_enriched == (o.dates_enriched || gets_filled(
        o.allocated.deep_view(),
        whois_allocated(p),
    ) || gets_filled(o.updated_at.deep_view(), x.1))
    &&& r.emails.deep_view() == (if o.emails@.len() == 0 {
        p.emails
    } else {
        o.emails.deep_view()
    })
    &&& r.abuse_emails.deep_view() == (if o.abuse_emails@.len() == 0 {
        p.abuse_emails
    } else {
        o.abuse_emails.deep_view()
    })
    &&& r.postal_code.deep_view() == filled(o.postal_code.deep_view(), p.postal_code)
    &&& r.abuse_contact.deep_view() == filled(o.abuse_contact.deep_view(), p.abuse_contact)
    &&& r.contact_name.deep_view() == filled(o.contact_name.deep_view(), p.contact_name)
    &&& r.from_ip.deep_view() == filled(o.from_ip.deep_view(), p.from_ip)
    &&& r.to_ip.deep_view() == filled(o.to_ip.deep_view(), p.to_ip)
    &&& r.cidr.deep_view() == filled(o.cidr.deep_view(), p.cidr)
    &&& r.status.deep_view() == filled(o.status.deep_view(), p.status)
}

/// The record view after enrichment: the same statement as [`enriched`],
/// as a function of the record before.
pub open spec fn enrich_view(
    o: RecordView,
    p: RegistryFields,
    x: (Option<Seq<char>>, Option<Seq<char>>, Option<Seq<char>>),
) -> RecordView {
    let country_src = or_else(p.country, x.2);
    RecordView {
        address: filled(o.address, p.address),
        address_enriched: o.address_enriched || gets_filled(o.address, p.address),
        country: filled(o.country, country_src),
        country_enriched: o.country_enriched || gets_filled(o.country, country_src),
        phone: filled(o.phone, p.phone),
        phone_enriched: o.phone_enriched || gets_filled(o.phone, p.phone),
        fax: filled(o.fax, p.fax),
        fax_enriched: o.fax_enriched || gets_filled(o.fax, p.fax),
        owner_name: filled(o.owner_name, p.owner_name),
        owner_enriched: o.owner_enriched || gets_filled(o.owner_name, p.owner_name),
        network_name: filled(o.network_name, p.network_name),
        remarks: filled(o.remarks, x.0),
        remarks_enriched: o.remarks_enriched || gets_filled(o.remarks, x.0),
        allocated: filled(o.allocated, whois_allocated(p)),
        updated_at: filled(o.updated_at, x.1),
        dates_enriched: o.dates_enriched || gets_filled(o.allocated, whois_allocated(p))
            || gets_filled(o.updated_at, x.1),
        emails: if o.emails.len() == 0 {
            p.emails
        } else {
            o.emails
        },
        abuse_emails: if o.abuse_emails.len() == 0 {
            p.abuse_emails
        } else {
            o.abuse_emails
        },
        postal_code: filled(o.postal_code, p.postal_code),
        abuse_contact: filled(o.abuse_contact, p.abuse_contact),
        contact_name: filled(o.contact_name, p.contact_name),
        from_ip: filled(o.from_ip, p.from_ip),
        to_ip: filled(o.to_ip, p.to_ip),
        cidr: filled(o.cidr, p.cidr),
        status: filled(o.status, p.status),
        ..o
    }
}

/// The relational statement gives the functional one.
pub proof fn lemma_enriched_view(
    o: IpRecord,
    r: IpRecord,
    p: RegistryFields,
    x: (Option<Seq<char>>, Option<Seq<char>>, Option<Seq<char>>),
)
    requires
        enriched(o, r, p, x),
    ensures
        r@ == enrich_view(o@, p, x),
{
    assert(r@ =~= enrich_view(o@, p, x));
}

/// Sets `dest` to `src` only when `dest` is empty.
pub fn fill_opt(dest: &mut Option<String>, src: Option<String>)
    ensures
        final(dest).deep_view() == filled(old(dest).deep_view(), src.deep_view()),
        (*old(dest)) is Some ==> *final(dest) == *old(dest),
{
    if dest.is_none() {
        *dest = src;
    }
}

/// Fills `dest` from `src` when `dest` is empty, and raises `flag` when a
/// value went in.
fn fill_flag(dest: &mut Option<String>, flag: &mut bool, src: Option<String>)
    ensures
        final(dest).deep_view() == filled(old(dest).deep_view(), src.deep_view()),
        *final(flag) == (*old(flag) || gets_filled(old(dest).deep_view(), src.deep_view())),
{
    if dest.is_none() {
        if src.is_some() {
            *dest = src;
            *flag = true;
        }
    }
}

/// Replaces an empty list by `src`.
fn fill_list(dest: &mut Vec<String>, src: Vec<String>)
    ensures
        final(dest).deep_view() == (if old(dest)@.len() == 0 {
            src.deep_view()
        } else {
            old(dest).deep_view()
        }),
{
    if dest.len() == 0 {
        *dest = src;
    }
}

/// The first present value of `a` and `b`.
fn first_of(a: Option<String>, b: Option<String>) -> (r: Option<String>)
    ensures
        r.deep_view() == or_else(a.deep_view(), b.deep_view()),
{
    match a {
        Some(c) => Some(c),
        None => b,
    }
}

/// `d` normalized, when present.
fn normalized(d: Option<String>) -> (r: Option<String>)
    ensures
        r.deep_view() == (match d.deep_view() {
            Some(t) => Some(normalize_date_spec(t)),
            None => None,
        }),
{
    match d {
        Some(t) => Some(normalize_date(t.as_str())),
        None => None,
    }
}

/// Enriches `record` with data extracted from `whois_raw`: only fields that
/// are still empty are filled, and each flagged field that gets filled sets
/// its `*_enriched` flag. E-mail lists are taken from WHOIS only when the
/// record has none.
#[verifier::rlimit(60)]
#[verifier::spinoff_prover]
pub fn enrich_from_whois_raw(record: &mut IpRecord, whois_raw: &str)
    ensures
        enriched(*old(record), *final(record), parse_whois(whois_raw@), parse_extras_spec(whois_raw@)),
{
    let parsed: ParsedWhois = WhoisClient::parse(whois_raw);
    let extras = parse_extras(whois_raw);
    let ParsedWhois {
        country,
        owner_name,
        address,
        emails,
        abuse_emails,
        phone,
        fax,
        from_ip,
        to_ip,
        status,
        network_name,
        contact_name,
        allocated,
        cidr,
        postal_code,
        abuse_contact,
    } = parsed;
    let EnrichmentExtras { remarks, updated_at, ctry } = extras;

    fill_flag(&mut record.address, &mut record.address_enriched, address);
    fill_flag(&mut record.country, &mut record.country_enriched, first_of(country, ctry));
    fill_flag(&mut record.phone, &mut record.phone_enriched, phone);
    fill_flag(&mut record.fax, &mut record.fax_enriched, fax);
    fill_flag(&mut record.owner_name, &mut record.owner_enriched, owner_name);
    fill_opt(&mut record.network_name, network_name);
    fill_flag(&mut record.remarks, &mut record.remarks_enriched, remarks);
    fill_flag(&mut record.allocated, &mut record.dates_enriched, normalized(allocated));
    fill_flag(&mut record.updated_at, &mut record.dates_enriched, updated_at);
    fill_list(&mut record.emails, emails);
    fill_list(&mut record.abuse_emails, abuse_emails);
    fill_opt(&mut record.postal_code, postal_code);
    fill_opt(&mut record.abuse_contact, abuse_contact);
    fill_opt(&mut record.contact_name, contact_name);
    fill_opt(&mut record.from_ip, from_ip);
    fill_opt(&mut record.to_ip, to_ip);
    fill_opt(&mut record.cidr, cidr);
    fill_opt(&mut record.status, status);
}


/// Enrichment never overwrites: every field already populated before
/// enrichment is unchanged after it, and every field that WHOIS does not
/// touch is unchanged too.
pub proof fn law_enrichment_keeps_populated(
    o: RecordView,
    p: RegistryFields,
    x: (Option<Seq<char>>, Option<Seq<char>>, Option<Seq<char>>),
)
    ensures
        ({
            let r = enrich_view(o, p, x);
            &&& o.address is Some ==> r.address == o.address
            &&& o.country is Some ==> r.country == o.country
            &&& o.phone is Some ==> r.phone == o.phone
            &&& o.fax is Some ==> r.fax == o.fax
            &&& o.owner_name is Some ==> r.owner_name == o.owner_name
            &&& o.network_name is Some ==> r.network_name == o.network_name
            &&& o.remarks is Some ==> r.remarks == o.remarks
            &&& o.allocated is Some ==> r.allocated == o.allocated
            &&& o.updated_at is Some ==> r.updated_at == o.updated_at
            &&& o.postal_code is Some ==> r.postal_code == o.postal_code
            &&& o.abuse_contact is Some ==> r.abuse_contact == o.abuse_contact
            &&& o.contact_name is Some ==> r.contact_name == o.contact_name
            &&& o.from_ip is Some ==> r.from_ip == o.from_ip
            &&& o.to_ip is Some ==> r.to_ip == o.to_ip
            &&& o.cidr is Some ==> r.cidr == o.cidr
            &&& o.status is Some ==> r.status == o.status
            &&& o.emails.len() > 0 ==> r.emails == o.emails
            &&& o.abuse_emails.len() > 0 ==> r.abuse_emails == o.abuse_emails
            &&& r.id == o.id && r.order == o.order && r.ip == o.ip
            &&& r.raw_whois == o.raw_whois && r.raw_rdap == o.raw_rdap
            &&& r.host_name == o.host_name && r.resolved_name == o.resolved_name
            &&& r.dns_records == o.dns_records && r.lookup_errors == o.lookup_errors
            &&& r.bgp == o.bgp && r.whois_source == o.whois_source
        }),
{
}

/// An `*_enriched` flag is raised by enrichment only when its field was
/// empty and WHOIS supplied a value; a raised flag stays raised.
pub proof fn law_enrichment_flags(
    o: RecordView,
    p: RegistryFields,
    x: (Option<Seq<char>>, Option<Seq<char>>, Option<Seq<char>>),
)
    ensures
        ({
            let r = enrich_view(o, p, x);
            &&& o.address_enriched ==> r.address_enriched
            &&& (!o.address_enriched && r.address_enriched) ==> (o.address is None && r.address is Some)
            &&& (o.address is None && r.address is Some) ==> r.address_enriched
            &&& (!o.country_enriched && r.country_enriched) ==> (o.country is None && r.country is Some)
            &&& (o.country is None && r.country is Some) ==> r.country_enriched
            &&& (!o.phone_enriched && r.phone_enriched) ==> (o.phone is None && r.phone is Some)
            &&& (o.phone is None && r.phone is Some) ==> r.phone_enriched
            &&& (!o.fax_enriched && r.fax_enriched) ==> (o.fax is None && r.fax is Some)
            &&& (o.fax is None && r.fax is Some) ==> r.fax_enriched
            &&& (!o.owner_enriched && r.owner_enriched) ==> (o.owner_name is None && r.owner_name is Some)
            &&& (o.owner_name is None && r.owner_name is Some) ==> r.owner_enriched
            &&& (!o.remarks_enriched && r.remarks_enriched) ==> (o.remarks is None && r.remarks is Some)
            &&& (o.remarks is None && r.remarks is Some) ==> r.remarks_enriched
            &&& (!o.dates_enriched && r.dates_enriched) ==> ((o.allocated is None && r.allocated is Some) || (
            o.updated_at is None && r.updated_at is Some))
            &&& ((o.allocated is None && r.allocated is Some) || (o.updated_at is None
                && r.updated_at is Some)) ==> r.dates_enriched
        }),
{
}

/// Enriching twice from the same response gives what enriching once gives.
pub proof fn law_enrichment_idempotent(
    o: RecordView,
    p: RegistryFields,
    x: (Option<Seq<char>>, Option<Seq<char>>, Option<Seq<char>>),
)
    ensures
        enrich_view(enrich_view(o, p, x), p, x) == enrich_view(o, p, x),
{
    let r = enrich_view(o, p, x);
    assert(enrich_view(r, p, x) =~= r);
}

} // verus!
