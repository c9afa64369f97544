//! RDAP responses: the fields of an IP network object, its events and the
//! vCards of its entities.
use vstd::prelude::*;

use crate::dates::{normalize_date, normalize_date_spec};
use crate::json::{
    arr_of, field, field_arr, field_str, lemma_member_index, member_index, str_of, u64_of, Json,
};
use crate::text::{
    ascii_lower, chars_of, dec, dec_string, eq_lit, join, join_strings, lower_vec, push_str,
    string_of, trim, trim_vec,
};
use crate::whois::enrichment::or_else;
use crate::whois::parse::{present, RegistryFields};

verus! {

// ---------------------------------------------------------------------------
// Types
// ---------------------------------------------------------------------------

/// Raw RDAP response for one query.
#[derive(Debug)]
pub struct RdapResult {
    /// The JSON body returned by the RDAP server.
    pub json: Json,
    /// The URL that was queried.
    pub url: String,
}

/// All fields extracted from an RDAP response.
#[derive(Clone, Debug)]
pub struct ParsedRdap {
    pub country: Option<String>,
    pub owner_name: Option<String>,
    pub address: Option<String>,
    pub emails: Vec<String>,
    pub abuse_emails: Vec<String>,
    pub phone: Option<String>,
    pub fax: Option<String>,
    pub from_ip: Option<String>,
    pub to_ip: Option<String>,
    pub status: Option<String>,
    pub network_name: Option<String>,
    pub contact_name: Option<String>,
    pub allocated: Option<String>,
    pub cidr: Option<String>,
    pub postal_code: Option<String>,
    pub abuse_contact: Option<String>,
}

impl View for ParsedRdap {
    type V = RegistryFields;

    open spec fn view(&self) -> RegistryFields {
        RegistryFields {
            country: self.country.deep_view(),
            owner_name: self.owner_name.deep_view(),
            address: self.address.deep_view(),
            emails: self.emails.deep_view(),
            abuse_emails: self.abuse_emails.deep_view(),
            phone: self.phone.deep_view(),
            fax: self.fax.deep_view(),
            from_ip: self.from_ip.deep_view(),
            to_ip: self.to_ip.deep_view(),
            status: self.status.deep_view(),
            network_name: self.network_name.deep_view(),
            contact_name: self.contact_name.deep_view(),
            allocated: self.allocated.deep_view(),
            cidr: self.cidr.deep_view(),
            postal_code: self.postal_code.deep_view(),
            abuse_contact: self.abuse_contact.deep_view(),
        }
    }
}

/// RDAP client settings.
#[derive(Clone, Debug)]
pub struct RdapClient {
    pub timeout_ms: u64,
}

// ---------------------------------------------------------------------------
// Specification
// ---------------------------------------------------------------------------

/// `s.get(i)`.
pub open spec fn at(s: Seq<Json>, i: int) -> Option<Json> {
    if 0 <= i < s.len() {
        Some(s[i])
    } else {
        None
    }
}

/// The string elements of `s`, in order (`filter_map(as_str)`).
pub open spec fn strings_in(s: Seq<Json>) -> Seq<Seq<char>>
    decreases s.len(),
{
    if s.len() == 0 {
        seq![]
    } else {
        match str_of(Some(s.last())) {
            Some(t) => strings_in(s.drop_last()).push(t),
            None => strings_in(s.drop_last()),
        }
    }
}

/// `"{prefix}/{length}"` for one `cidr0_cidrs` entry.
pub open spec fn cidr_entry(c: Json) -> Option<Seq<char>> {
    let prefix = or_else(field_str(c, "v4prefix"@), field_str(c, "v6prefix"@));
    match (prefix, u64_of(field(c, "length"@))) {
        (Some(p), Some(n)) => Some(p + "/"@ + dec(n as nat)),
        _ => None,
    }
}

pub open spec fn cidr_entries(s: Seq<Json>) -> Seq<Seq<char>>
    decreases s.len(),
{
    if s.len() == 0 {
        seq![]
    } else {
        match cidr_entry(s.last()) {
            Some(t) => cidr_entries(s.drop_last()).push(t),
            None => cidr_entries(s.drop_last()),
        }
    }
}

/// The CIDR blocks of `cidr0_cidrs`, joined with `", "`.
pub open spec fn extract_cidr_spec(j: Json) -> Option<Seq<char>> {
    match field_arr(j, "cidr0_cidrs"@) {
        Some(cs) => {
            let parts = cidr_entries(cs);
            if parts.len() > 0 {
                Some(join(parts, ", "@))
            } else {
                None
            }
        },
        None => None,
    }
}

/// The date of an event whose action is `action`, if it has a date.
pub open spec fn event_date(ev: Json, action: Seq<char>) -> Option<Seq<char>> {
    match field_str(ev, "eventAction"@) {
        Some(a) if a == action => match field_str(ev, "eventDate"@) {
            Some(d) => Some(normalize_date_spec(d)),
            None => None,
        },
        _ => None,
    }
}

pub open spec fn first_event_date(evs: Seq<Json>, action: Seq<char>) -> Option<Seq<char>>
    decreases evs.len(),
{
    if evs.len() == 0 {
        None
    } else {
        match event_date(evs[0], action) {
            Some(d) => Some(d),
            None => first_event_date(evs.drop_first(), action),
        }
    }
}

/// The normalized date of the first event with action `action` that has one.
pub open spec fn extract_event_date_spec(j: Json, action: Seq<char>) -> Option<Seq<char>> {
    match field_arr(j, "events"@) {
        Some(evs) => first_event_date(evs, action),
        None => None,
    }
}

/// The properties of an entity's vCard (`vcardArray[1]`).
pub open spec fn vcard_props_spec(e: Json) -> Seq<Json> {
    match field_arr(e, "vcardArray"@) {
        Some(a) => match arr_of(at(a, 1)) {
            Some(ps) => ps,
            None => seq![],
        },
        None => seq![],
    }
}

/// The name of a vCard property (its first element).
pub open spec fn prop_name(p: Json) -> Option<Seq<char>> {
    match arr_of(Some(p)) {
        Some(a) => str_of(at(a, 0)),
        None => None,
    }
}

/// The text value of a vCard property (its fourth element).
pub open spec fn vcard_text_spec(p: Json) -> Option<Seq<char>> {
    match arr_of(Some(p)) {
        Some(a) => str_of(at(a, 3)),
        None => None,
    }
}

/// The `type` parameter of a vCard property: a string, or the first string
/// of an array.
pub open spec fn vcard_type_spec(p: Json) -> Option<Seq<char>> {
    match arr_of(Some(p)) {
        Some(a) => match at(a, 1) {
            Some(params) => match field_str(params, "type"@) {
                Some(t) => Some(t),
                None => match field_arr(params, "type"@) {
                    Some(ts) => str_of(at(ts, 0)),
                    None => None,
                },
            },
            None => None,
        },
        None => None,
    }
}

/// `s.replace('\n', ", ")`.
pub open spec fn newlines_to_commas(s: Seq<char>) -> Seq<char>
    decreases s.len(),
{
    if s.len() == 0 {
        seq![]
    } else if s.last() == '\n' {
        newlines_to_commas(s.drop_last()) + ", "@
    } else {
        newlines_to_commas(s.drop_last()).push(s.last())
    }
}

/// A non-empty string element of an `adr` value.
pub open spec fn adr_part(parts: Seq<Json>, i: int) -> Option<Seq<char>> {
    match str_of(at(parts, i)) {
        Some(t) if t.len() > 0 => Some(t),
        _ => None,
    }
}

/// A vCard `adr` value as (single-line address, postal code).
pub open spec fn format_adr_spec(v: Json) -> (Option<Seq<char>>, Option<Seq<char>>) {
    match v {
        Json::String(s) => (Some(trim(newlines_to_commas(s@))), None),
        Json::Array(a) => {
            let parts = a@;
            let postal = adr_part(parts, 5);
            let comps = present(
                seq![adr_part(parts, 2), adr_part(parts, 3), adr_part(parts, 4), postal, adr_part(parts, 6)],
            );
            (
                if comps.len() == 0 {
                    None
                } else {
                    Some(join(comps, ", "@))
                },
                postal,
            )
        },
        _ => (None, None),
    }
}

/// The country of the first `adr` property that has one; the search stops
/// (with nothing) at the first property that is not a named array.
pub open spec fn country_from_props(ps: Seq<Json>) -> Option<Seq<char>>
    decreases ps.len(),
{
    if ps.len() == 0 {
        None
    } else {
        match prop_name(ps[0]) {
            None => None,
            Some(n) => {
                let found = if n == "adr"@ {
                    match arr_of(at(arr_of(Some(ps[0])).unwrap(), 3)) {
                        Some(parts) => match str_of(at(parts, 6)) {
                            Some(c) if trim(c).len() > 0 => Some(trim(c)),
                            _ => None,
                        },
                        None => None,
                    }
                } else {
                    None
                };
                if found is Some {
                    found
                } else {
                    country_from_props(ps.drop_first())
                }
            },
        }
    }
}

/// What an entity's vCard says.
#[verifier::ext_equal]
pub struct CardScan {
    pub name: Option<Seq<char>>,
    pub address: Option<Seq<char>>,
    pub postal_code: Option<Seq<char>>,
    pub emails: Seq<Seq<char>>,
    pub phone: Option<Seq<char>>,
    pub fax: Option<Seq<char>>,
}

pub open spec fn card_start() -> CardScan {
    CardScan { name: None, address: None, postal_code: None, emails: seq![], phone: None, fax: None }
}

/// The effect of one vCard property.
pub open spec fn card_step(st: CardScan, p: Json) -> CardScan {
    match prop_name(p) {
        Some(n) => if n == "fn"@ {
            CardScan { name: vcard_text_spec(p), ..st }
        } else if n == "org"@ {
            if st.name is None {
                CardScan { name: vcard_text_spec(p), ..st }
            } else {
                st
            }
        } else if n == "adr"@ {
            match at(arr_of(Some(p)).unwrap(), 3) {
                Some(v) => {
                    let (ad, z) = format_adr_spec(v);
                    CardScan {
                        address: or_else(st.address, ad),
                        postal_code: or_else(st.postal_code, z),
                        ..st
                    }
                },
                None => st,
            }
        } else if n == "email"@ {
            match vcard_text_spec(p) {
                Some(e) => CardScan { emails: st.emails.push(e), ..st },
                None => st,
            }
        } else if n == "tel"@ {
            let t = match vcard_type_spec(p) {
                Some(t) => t,
                None => "voice"@,
            };
            if ascii_lower(t) == "fax"@ {
                CardScan { fax: or_else(st.fax, vcard_text_spec(p)), ..st }
            } else {
                CardScan { phone: or_else(st.phone, vcard_text_spec(p)), ..st }
            }
        } else {
            st
        },
        None => st,
    }
}

/// A `tel` property whose `type` is `fax` in any letter case fills the fax
/// number, when none was seen yet, with its text and leaves the phone alone;
/// a `tel` of any other type, or of none, fills the phone the same way and
/// leaves the fax alone. Nothing else of the scan changes.
pub proof fn law_tel_fax_or_phone(st: CardScan, p: Json)
    requires
        prop_name(p) == Some("tel"@),
    ensures
        ({
            let r = card_step(st, p);
            let is_fax = vcard_type_spec(p) matches Some(t) && ascii_lower(t) == "fax"@;
            &&& is_fax ==> r.phone == st.phone
            &&& is_fax && st.fax is None ==> r.fax == vcard_text_spec(p)
            &&& !is_fax ==> r.fax == st.fax
            &&& !is_fax && st.phone is None ==> r.phone == vcard_text_spec(p)
            &&& st.fax is Some ==> r.fax == st.fax
            &&& st.phone is Some ==> r.phone == st.phone
            &&& r.name == st.name && r.address == st.address && r.postal_code == st.postal_code
                && r.emails == st.emails
        }),
{
    reveal_strlit("tel");
    reveal_strlit("fn");
    reveal_strlit("org");
    reveal_strlit("adr");
    reveal_strlit("email");
    reveal_strlit("voice");
    reveal_strlit("fax");
    assert("tel"@[0] != "org"@[0]);
    assert("tel"@[0] != "adr"@[0]);
    assert("voice"@.len() != "fax"@.len());
    assert(ascii_lower("voice"@).len() == "voice"@.len());
}

pub open spec fn card_fold(ps: Seq<Json>, st: CardScan) -> CardScan
    decreases ps.len(),
{
    if ps.len() == 0 {
        st
    } else {
        card_fold(ps.drop_first(), card_step(st, ps[0]))
    }
}

/// The roles of an entity.
pub open spec fn roles_of(e: Json) -> Seq<Seq<char>> {
    match field_arr(e, "roles"@) {
        Some(rs) => strings_in(rs),
        None => seq![],
    }
}

/// The owner name after an `org` entity (when no registrant role) with
/// vCard name `name` was seen.
pub open spec fn org_owner(owner: Option<Seq<char>>, name: Option<Seq<char>>) -> Option<Seq<char>> {
    let o1 = if owner is None {
        Some(
            match name {
                Some(n) => n,
                None => Seq::empty(),
            },
        )
    } else {
        owner
    };
    if o1 == Some(Seq::<char>::empty()) {
        name
    } else {
        o1
    }
}

/// The first element of a list, if any.
pub open spec fn first_in(s: Seq<Seq<char>>) -> Option<Seq<char>> {
    if s.len() > 0 {
        Some(s[0])
    } else {
        None
    }
}

/// What a registrant entity contributes: its vCard fills what is still
/// empty, its e-mails are added, and its `adr` country is used when no
/// country is known.
pub open spec fn registrant_step(p: RegistryFields, e: Json, c: CardScan) -> RegistryFields {
    RegistryFields {
        owner_name: or_else(p.owner_name, c.name),
        address: or_else(p.address, c.address),
        postal_code: or_else(p.postal_code, c.postal_code),
        emails: p.emails + c.emails,
        phone: or_else(p.phone, c.phone),
        fax: or_else(p.fax, c.fax),
        country: if p.country is None {
            country_from_props(vcard_props_spec(e))
        } else {
            p.country
        },
        ..p
    }
}

/// What an `org` entity (that is not also a registrant) contributes.
pub open spec fn org_step(p: RegistryFields, e: Json, c: CardScan) -> RegistryFields {
    RegistryFields {
        owner_name: org_owner(p.owner_name, c.name),
        address: or_else(p.address, c.address),
        postal_code: or_else(p.postal_code, c.postal_code),
        phone: or_else(p.phone, c.phone),
        fax: or_else(p.fax, c.fax),
        emails: p.emails + c.emails,
        country: if p.country is None {
            country_from_props(vcard_props_spec(e))
        } else {
            p.country
        },
        ..p
    }
}

/// What an abuse entity contributes.
pub open spec fn abuse_step(p: RegistryFields, c: CardScan) -> RegistryFields {
    let ac = or_else(p.abuse_contact, c.name);
    RegistryFields {
        abuse_emails: p.abuse_emails + c.emails,
        abuse_contact: if ac is None {
            first_in(c.emails)
        } else {
            ac
        },
        ..p
    }
}

/// Contact name and postal code, after the role-specific steps.
pub open spec fn contact_step(
    p: RegistryFields,
    c: CardScan,
    secondary: bool,
    unclassified: bool,
) -> RegistryFields {
    let p4 = if secondary && p.contact_name is None {
        RegistryFields { contact_name: c.name, ..p }
    } else {
        p
    };
    let p5 = if unclassified && p4.contact_name is None {
        RegistryFields { contact_name: c.name, ..p4 }
    } else {
        p4
    };
    if p5.postal_code is None {
        RegistryFields { postal_code: c.postal_code, ..p5 }
    } else {
        p5
    }
}

/// How the roles of entity `e` with vCard `c` update the fields `p`.
pub open spec fn apply_roles(p: RegistryFields, e: Json, c: CardScan) -> RegistryFields {
    let roles = roles_of(e);
    let registrant = roles.contains("registrant"@);
    let org = roles.contains("org"@);
    let abuse = roles.contains("abuse"@);
    let secondary = roles.contains("administrative"@) || roles.contains("technical"@);
    let p1 = if registrant {
        registrant_step(p, e, c)
    } else {
        p
    };
    let p2 = if org && !registrant {
        org_step(p1, e, c)
    } else {
        p1
    };
    let p3 = if abuse {
        abuse_step(p2, c)
    } else {
        p2
    };
    contact_step(p3, c, secondary, !registrant && !org && !abuse)
}

/// The sub-entities of an entity (`entities`, when it is an array).
pub open spec fn sub_entities(e: Json) -> Seq<Json> {
    match field_arr(e, "entities"@) {
        Some(s) => s,
        None => seq![],
    }
}

/// The fields after an entity and, depth first, its sub-entities.
pub open spec fn process_entity_spec(e: Json, p: RegistryFields) -> RegistryFields
    decreases e, 1nat,
{
    let p1 = apply_roles(p, e, card_fold(vcard_props_spec(e), card_start()));
    match e {
        Json::Object(m) => match member_index(m@, "entities"@) {
            Some(i) => {
                proof {
                    lemma_member_index(m@, "entities"@);
                }
                match m@[i].1 {
                    Json::Array(v) => process_all(v@, p1),
                    _ => p1,
                }
            },
            None => p1,
        },
        _ => p1,
    }
}

/// The fields after each entity of `es`, in order.
pub open spec fn process_all(es: Seq<Json>, p: RegistryFields) -> RegistryFields
    decreases es, 0nat,
{
    if es.len() == 0 {
        p
    } else {
        process_all(es.drop_first(), process_entity_spec(es[0], p))
    }
}

/// The fields known before the entities are read.
pub open spec fn top_fields(j: Json) -> RegistryFields {
    let statuses = match field_arr(j, "status"@) {
        Some(s) => strings_in(s),
        None => seq![],
    };
    RegistryFields {
        country: field_str(j, "country"@),
        owner_name: None,
        address: None,
        emails: seq![],
        abuse_emails: seq![],
        phone: None,
        fax: None,
        from_ip: field_str(j, "startAddress"@),
        to_ip: field_str(j, "endAddress"@),
        status: if statuses.len() > 0 {
            Some(join(statuses, ", "@))
        } else {
            None
        },
        network_name: field_str(j, "name"@),
        contact_name: None,
        allocated: extract_event_date_spec(j, "registration"@),
        cidr: extract_cidr_spec(j),
        postal_code: None,
        abuse_contact: None,
    }
}

/// The fields of an RDAP IP network object.
pub open spec fn parse_rdap_spec(j: Json) -> RegistryFields {
    match field_arr(j, "entities"@) {
        Some(es) => process_all(es, top_fields(j)),
        None => top_fields(j),
    }
}

// ---------------------------------------------------------------------------
// Executable extraction
// ---------------------------------------------------------------------------

/// `s.get(i)`.
fn at_exec(s: &Vec<Json>, i: usize) -> (r: Option<&Json>)
    ensures
        match at(s@, i as int) {
            Some(v) => r == Some(&v),
            None => r is None,
        },
{
    if i < s.len() {
        Some(&s[i])
    } else {
        None
    }
}

/// The string elements of `s`, in order.
fn strings_exec(s: &Vec<Json>) -> (r: Vec<String>)
    ensures
        r.deep_view() == strings_in(s@),
{
    let mut r: Vec<String> = Vec::new();
    let mut i: usize = 0;
    while i < s.len()
        invariant
            i <= s.len(),
            r.deep_view() == strings_in(s@.take(i as int)),
        decreases s.len() - i,
    {
        proof {
            assert(s@.take(i + 1).drop_last() =~= s@.take(i as int));
        }
        match s[i].as_str() {
            Some(t) => {
                r.push(t.clone());
                proof {
                    assert(r.deep_view() =~= strings_in(s@.take(i as int)).push(t@));
                }
            },
            None => {},
        }
        i += 1;
    }
    proof {
        assert(s@.take(s.len() as int) =~= s@);
    }
    r
}

/// `"{prefix}/{length}"` for one `cidr0_cidrs` entry.
fn cidr_entry_exec(c: &Json) -> (r: Option<String>)
    ensures
        r.deep_view() == cidr_entry(*c),
{
    let prefix = match c.get_str("v4prefix") {
        Some(p) => Some(p),
        None => c.get_str("v6prefix"),
    };
    let len = match c.get("length") {
        Some(l) => l.as_u64(),
        None => None,
    };
    match (prefix, len) {
        (Some(p), Some(n)) => {
            let mut s = p.clone();
            push_str(&mut s, "/");
            let d = dec_string(n);
            push_str(&mut s, d.as_str());
            Some(s)
        },
        _ => None,
    }
}

/// The CIDR blocks listed in `cidr0_cidrs`, joined with `", "`.
pub fn extract_cidr(json: &Json) -> (r: Option<String>)
    ensures
        r.deep_view() == extract_cidr_spec(*json),
{
    match json.get_array("cidr0_cidrs") {
        Some(cs) => {
            let mut parts: Vec<String> = Vec::new();
            let mut i: usize = 0;
            while i < cs.len()
                invariant
                    i <= cs.len(),
                    parts.deep_view() == cidr_entries(cs@.take(i as int)),
                decreases cs.len() - i,
            {
                proof {
                    assert(cs@.take(i + 1).drop_last() =~= cs@.take(i as int));
                }
                match cidr_entry_exec(&cs[i]) {
                    Some(t) => {
                        parts.push(t);
                        proof {
                            assert(parts.deep_view() =~= cidr_entries(cs@.take(i as int)).push(t@));
                        }
                    },
                    None => {},
                }
                i += 1;
            }
            proof {
                assert(cs@.take(cs.len() as int) =~= cs@);
            }
            if parts.len() > 0 {
                Some(join_strings(&parts, ", "))
            } else {
                None
            }
        },
        None => None,
    }
}

/// The normalized date of the first event whose action is `action` and that
/// has a date.
pub fn extract_event_date(json: &Json, action: &str) -> (r: Option<String>)
    ensures
        r.deep_view() == extract_event_date_spec(*json, action@),
{
    let evs = match json.get_array("events") {
        Some(e) => e,
        None => return None,
    };
    let mut i: usize = 0;
    proof {
        assert(evs@.skip(0) =~= evs@);
        assert(extract_event_date_spec(*json, action@) == first_event_date(evs@, action@));
    }
    while i < evs.len()
        invariant
            i <= evs.len(),
            extract_event_date_spec(*json, action@) == first_event_date(evs@, action@),
            first_event_date(evs@, action@) == first_event_date(evs@.skip(i as int), action@),
        decreases evs.len() - i,
    {
        proof {
            assert(evs@.skip(i as int).drop_first() =~= evs@.skip(i + 1));
            assert(evs@.skip(i as int)[0] == evs@[i as int]);
        }
        let ev = &evs[i];
        match ev.get_str("eventAction") {
            Some(a) => {
                let av = chars_of(a.as_str());
                if eq_lit(&av, action) {
                    match ev.get_str("eventDate") {
                        Some(d) => {
                            return Some(normalize_date(d.as_str()));
                        },
                        None => {},
                    }
                }
            },
            None => {},
        }
        i += 1;
    }
    None
}

/// The properties of an entity's vCard.
fn vcard_props(entity: &Json) -> (r: Option<&Vec<Json>>)
    ensures
        match r {
            Some(v) => v@ == vcard_props_spec(*entity),
            None => vcard_props_spec(*entity) == Seq::<Json>::empty(),
        },
{
    match entity.get_array("vcardArray") {
        Some(a) => match at_exec(a, 1) {
            Some(x) => x.as_array(),
            None => None,
        },
        None => None,
    }
}

/// The name of a vCard property.
fn prop_name_exec(p: &Json) -> (r: Option<&String>)
    ensures
        match prop_name(*p) {
            Some(n) => r matches Some(x) && x@ == n,
            None => r is None,
        },
{
    match p.as_array() {
        Some(a) => match at_exec(a, 0) {
            Some(x) => x.as_str(),
            None => None,
        },
        None => None,
    }
}

/// The text value of a vCard property.
fn vcard_text(p: &Json) -> (r: Option<String>)
    ensures
        r.deep_view() == vcard_text_spec(*p),
{
    match p.as_array() {
        Some(a) => match at_exec(a, 3) {
            Some(x) => match x.as_str() {
                Some(t) => Some(t.clone()),
                None => None,
            },
            None => None,
        },
        None => None,
    }
}

/// The `type` parameter of a vCard property.
fn vcard_type_param(p: &Json) -> (r: Option<String>)
    ensures
        r.deep_view() == vcard_type_spec(*p),
{
    match p.as_array() {
        Some(a) => match at_exec(a, 1) {
            Some(params) => match params.get_str("type") {
                Some(t) => Some(t.clone()),
                None => match params.get_array("type") {
                    Some(ts) => match at_exec(ts, 0) {
                        Some(x) => match x.as_str() {
                            Some(t) => Some(t.clone()),
                            None => None,
                        },
                        None => None,
                    },
                    None => None,
                },
            },
            None => None,
        },
        None => None,
    }
}

/// `s.replace('\n', ", ")`.
fn newlines_to_commas_exec(s: &[char]) -> (r: Vec<char>)
    ensures
        r@ == newlines_to_commas(s@),
{
    let mut r: Vec<char> = Vec::new();
    let mut i: usize = 0;
    while i < s.len()
        invariant
            i <= s.len(),
            r@ == newlines_to_commas(s@.take(i as int)),
        decreases s.len() - i,
    {
        proof {
            assert(s@.take(i + 1).drop_last() =~= s@.take(i as int));
        }
        if s[i] == '\n' {
            r.push(',');
            r.push(' ');
            proof {
                reveal_strlit(", ");
                assert(r@ =~= newlines_to_commas(s@.take(i as int)) + ", "@);
            }
        } else {
            r.push(s[i]);
        }
        i += 1;
    }
    proof {
        assert(s@.take(s.len() as int) =~= s@);
    }
    r
}

/// A non-empty string element of an `adr` value.
fn adr_part_exec(parts: &Vec<Json>, i: usize) -> (r: Option<String>)
    ensures
        r.deep_view() == adr_part(parts@, i as int),
{
    match at_exec(parts, i) {
        Some(x) => match x.as_str() {
            Some(t) => {
                if !t.as_str().is_empty() {
                    Some(t.clone())
                } else {
                    None
                }
            },
            None => None,
        },
        None => None,
    }
}

/// The values that are present, in order.
fn present_strings(os: Vec<Option<String>>) -> (r: Vec<String>)
    ensures
        r.deep_view() == present(os.deep_view()),
{
    let mut r: Vec<String> = Vec::new();
    let mut i: usize = 0;
    while i < os.len()
        invariant
            i <= os.len(),
            r.deep_view() == present(os.deep_view().take(i as int)),
        decreases os.len() - i,
    {
        let ghost pre = os.deep_view().take(i as int);
        proof {
            assert(os.deep_view().take(i + 1).drop_last() =~= pre);
        }
        match &os[i] {
            Some(v) => {
                r.push(v.clone());
                proof {
                    assert(r.deep_view() =~= present(pre).push(v@));
                }
            },
            None => {},
        }
        i += 1;
    }
    proof {
        assert(os.deep_view().take(os.len() as int) =~= os.deep_view());
    }
    r
}

/// Formats a vCard `adr` value as a single-line address; returns
/// `(address, postal_code)`.
pub fn format_adr(value: &Json) -> (r: (Option<String>, Option<String>))
    ensures
        (r.0.deep_view(), r.1.deep_view()) == format_adr_spec(*value),
{
    match value {
        Json::String(s) => {
            let v = chars_of(s.as_str());
            let c = newlines_to_commas_exec(&v);
            let t = trim_vec(&c);
            (Some(string_of(&t)), None)
        },
        Json::Array(parts) => {
            let postal = adr_part_exec(parts, 5);
            let mut os: Vec<Option<String>> = Vec::new();
            os.push(adr_part_exec(parts, 2));
            os.push(adr_part_exec(parts, 3));
            os.push(adr_part_exec(parts, 4));
            os.push(match &postal {
                Some(p) => Some(p.clone()),
                None => None,
            });
            os.push(adr_part_exec(parts, 6));
            proof {
                assert(os.deep_view() =~= seq![
                    adr_part(parts@, 2),
                    adr_part(parts@, 3),
                    adr_part(parts@, 4),
                    adr_part(parts@, 5),
                    adr_part(parts@, 6),
                ]);
            }
            let comps = present_strings(os);
            let addr = if comps.len() == 0 {
                None
            } else {
                Some(join_strings(&comps, ", "))
            };
            (addr, postal)
        },
        _ => (None, None),
    }
}

/// The country code of the first vCard `adr` property that carries one.
pub fn extract_country_from_vcard(entity: &Json) -> (r: Option<String>)
    ensures
        r.deep_view() == country_from_props(vcard_props_spec(*entity)),
{
    let props = match vcard_props(entity) {
        Some(ps) => ps,
        None => return None,
    };
    let mut i: usize = 0;
    proof {
        assert(props@.skip(0) =~= props@);
    }
    while i < props.len()
        invariant
            i <= props.len(),
            country_from_props(vcard_props_spec(*entity)) == country_from_props(props@.skip(i as int)),
            props@ == vcard_props_spec(*entity),
        decreases props.len() - i,
    {
        let ghost rest = props@.skip(i as int);
        proof {
            assert(rest.drop_first() =~= props@.skip(i + 1));
            assert(rest[0] == props@[i as int]);
        }
        let p = &props[i];
        let name = match prop_name_exec(p) {
            Some(n) => n,
            None => return None,
        };
        let nv = chars_of(name.as_str());
        if eq_lit(&nv, "adr") {
            let a = p.as_array().unwrap();
            match at_exec(a, 3) {
                Some(x) => match x.as_array() {
                    Some(parts) => match at_exec(parts, 6) {
                        Some(cj) => match cj.as_str() {
                            Some(c) => {
                                let cv = chars_of(c.as_str());
                                let t = trim_vec(&cv);
                                if t.len() > 0 {
                                    return Some(string_of(&t));
                                }
                            },
                            None => {},
                        },
                        None => {},
                    },
                    None => {},
                },
                None => {},
            }
        }
        i += 1;
    }
    None
}

struct CardScanner {
    name: Option<String>,
    address: Option<String>,
    postal_code: Option<String>,
    emails: Vec<String>,
    phone: Option<String>,
    fax: Option<String>,
}

impl CardScanner {
    spec fn model(&self) -> CardScan {
        CardScan {
            name: self.name.deep_view(),
            address: self.address.deep_view(),
            postal_code: self.postal_code.deep_view(),
            emails: self.emails.deep_view(),
            phone: self.phone.deep_view(),
            fax: self.fax.deep_view(),
        }
    }

    fn step(&mut self, p: &Json)
        ensures
            final(self).model() == card_step(old(self).model(), *p),
    {
        let name = match prop_name_exec(p) {
            Some(n) => n,
            None => return ,
        };
        let nv = chars_of(name.as_str());
        if eq_lit(&nv, "fn") {
            self.name = vcard_text(p);
        } else if eq_lit(&nv, "org") {
            if self.name.is_none() {
                self.name = vcard_text(p);
            }
        } else if eq_lit(&nv, "adr") {
            let a = p.as_array().unwrap();
            match at_exec(a, 3) {
                Some(v) => {
                    let (ad, z) = format_adr(v);
                    if self.address.is_none() {
                        self.address = ad;
                    }
                    if self.postal_code.is_none() {
                        self.postal_code = z;
                    }
                },
                None => {},
            }
        } else if eq_lit(&nv, "email") {
            match vcard_text(p) {
                Some(e) => {
                    self.emails.push(e);
                    proof {
                        assert(self.emails.deep_view() =~= old(self).emails.deep_view().push(e@));
                    }
                },
                None => {},
            }
        } else if eq_lit(&nv, "tel") {
            let t = match vcard_type_param(p) {
                Some(t) => t,
                None => "voice".to_string(),
            };
            proof {
                reveal_strlit("voice");
            }
            let number = vcard_text(p);
            let tv = chars_of(t.as_str());
            let tl = lower_vec(&tv);
            if eq_lit(&tl, "fax") {
                if self.fax.is_none() {
                    self.fax = number;
                }
            } else {
                if self.phone.is_none() {
                    self.phone = number;
                }
            }
        }
    }
}

/// Whether `roles` holds `role`.
fn has_role(roles: &Vec<String>, role: &str) -> (r: bool)
    ensures
        r == roles.deep_view().contains(role@),
{
    let rv = chars_of(role);
    crate::text::contains_value(roles, &rv)
}

fn opt_clone(o: &Option<String>) -> (r: Option<String>)
    ensures
        r.deep_view() == o.deep_view(),
{
    match o {
        Some(s) => Some(s.clone()),
        None => None,
    }
}

/// Sets `dest` to `src` when `dest` is empty.
fn fill_from(dest: &mut Option<String>, src: &Option<String>)
    ensures
        final(dest).deep_view() == or_else(old(dest).deep_view(), src.deep_view()),
{
    if dest.is_none() {
        *dest = opt_clone(src);
    }
}

fn registrant_exec(parsed: &mut ParsedRdap, e: &Json, c: &CardScanner)
    ensures
        final(parsed)@ == registrant_step(old(parsed)@, *e, c.model()),
{
    fill_from(&mut parsed.owner_name, &c.name);
    fill_from(&mut parsed.address, &c.address);
    fill_from(&mut parsed.postal_code, &c.postal_code);
    crate::text::append_strings(&mut parsed.emails, &c.emails);
    fill_from(&mut parsed.phone, &c.phone);
    fill_from(&mut parsed.fax, &c.fax);
    if parsed.country.is_none() {
        parsed.country = extract_country_from_vcard(e);
    }
}

fn org_exec(parsed: &mut ParsedRdap, e: &Json, c: &CardScanner)
    ensures
        final(parsed)@ == org_step(old(parsed)@, *e, c.model()),
{
    if parsed.owner_name.is_none() {
        parsed.owner_name = Some(
            match &c.name {
                Some(n) => n.clone(),
                None => String::new(),
            },
        );
    }
    let empty_owner = match &parsed.owner_name {
        Some(o) => {
            let b = o.as_str().is_empty();
            proof {
                if b {
                    assert(o@ =~= Seq::<char>::empty());
                }
            }
            b
        },
        None => false,
    };
    if empty_owner {
        parsed.owner_name = opt_clone(&c.name);
    }
    fill_from(&mut parsed.address, &c.address);
    fill_from(&mut parsed.postal_code, &c.postal_code);
    fill_from(&mut parsed.phone, &c.phone);
    fill_from(&mut parsed.fax, &c.fax);
    crate::text::append_strings(&mut parsed.emails, &c.emails);
    if parsed.country.is_none() {
        parsed.country = extract_country_from_vcard(e);
    }
}

fn abuse_exec(parsed: &mut ParsedRdap, c: &CardScanner)
    ensures
        final(parsed)@ == abuse_step(old(parsed)@, c.model()),
{
    crate::text::append_strings(&mut parsed.abuse_emails, &c.emails);
    fill_from(&mut parsed.abuse_contact, &c.name);
    if parsed.abuse_contact.is_none() {
        if c.emails.len() > 0 {
            parsed.abuse_contact = Some(c.emails[0].clone());
        }
    }
}

fn contact_exec(parsed: &mut ParsedRdap, c: &CardScanner, secondary: bool, unclassified: bool)
    ensures
        final(parsed)@ == contact_step(old(parsed)@, c.model(), secondary, unclassified),
{
    if secondary && parsed.contact_name.is_none() {
        parsed.contact_name = opt_clone(&c.name);
    }
    if unclassified && parsed.contact_name.is_none() {
        parsed.contact_name = opt_clone(&c.name);
    }
    if parsed.postal_code.is_none() {
        parsed.postal_code = opt_clone(&c.postal_code);
    }
}

/// Merges what entity `e` (with vCard scan `c`) says into `parsed`,
/// according to the entity's roles.
fn apply_entity(parsed: &mut ParsedRdap, e: &Json, c: &CardScanner)
    ensures
        final(parsed)@ == apply_roles(old(parsed)@, *e, c.model()),
{
    let roles = match e.get_array("roles") {
        Some(rs) => strings_exec(rs),
        None => Vec::new(),
    };
    proof {
        assert(roles.deep_view() =~= roles_of(*e));
    }
    let registrant = has_role(&roles, "registrant");
    let org = has_role(&roles, "org");
    let abuse = has_role(&roles, "abuse");
    let secondary = has_role(&roles, "administrative") || has_role(&roles, "technical");
    if registrant {
        registrant_exec(parsed, e, c);
    }
    if org && !registrant {
        org_exec(parsed, e, c);
    }
    if abuse {
        abuse_exec(parsed, c);
    }
    contact_exec(parsed, c, secondary, !registrant && !org && !abuse);
}

/// Proof that a sub-entity is smaller than its parent.
proof fn lemma_sub_entity_smaller(e: Json, i: int)
    requires
        0 <= i < sub_entities(e).len(),
    ensures
        decreases_to!(e => sub_entities(e)[i]),
{
    match e {
        Json::Object(m) => {
            lemma_member_index(m@, "entities"@);
            let k = member_index(m@, "entities"@)->0;
            let v = m@[k].1->Array_0;
            assert(decreases_to!(e => e->Object_0));
            assert(decreases_to!(m => m@));
            assert(decreases_to!(m@ => m@[k]));
            assert(decreases_to!(m@[k] => m@[k].1));
            assert(decreases_to!(m@[k].1 => v));
            assert(decreases_to!(v => v@));
            assert(decreases_to!(v@ => v@[i]));
        },
        _ => {},
    }
}

/// The sub-entities of an entity, as stated by `process_entity_spec`.
proof fn lemma_sub_entities_unfold(e: Json, p: RegistryFields)
    ensures
        process_entity_spec(e, p) == process_all(
            sub_entities(e),
            apply_roles(p, e, card_fold(vcard_props_spec(e), card_start())),
        ),
{
    match e {
        Json::Object(m) => {
            lemma_member_index(m@, "entities"@);
        },
        _ => {},
    }
}

/// Reads the vCard of `entity` and merges it into `parsed` according to the
/// entity's roles, then does the same for its sub-entities, depth first.
fn process_entity(entity: &Json, parsed: &mut ParsedRdap)
    ensures
        final(parsed)@ == process_entity_spec(*entity, old(parsed)@),
    decreases *entity,
{
    let mut card = CardScanner {
        name: None,
        address: None,
        postal_code: None,
        emails: Vec::new(),
        phone: None,
        fax: None,
    };
    proof {
        assert(card.model() =~= card_start());
    }
    match vcard_props(entity) {
        Some(props) => {
            let mut i: usize = 0;
            proof {
                assert(props@.skip(0) =~= props@);
            }
            while i < props.len()
                invariant
                    i <= props.len(),
                    card_fold(props@, card_start()) == card_fold(props@.skip(i as int), card.model()),
                decreases props.len() - i,
            {
                proof {
                    assert(props@.skip(i as int).drop_first() =~= props@.skip(i + 1));
                    assert(props@.skip(i as int)[0] == props@[i as int]);
                }
                card.step(&props[i]);
                i += 1;
            }
            proof {
                assert(props@.skip(props.len() as int) =~= Seq::<Json>::empty());
            }
        },
        None => {},
    }
    let ghost before = parsed@;
    apply_entity(parsed, entity, &card);
    proof {
        lemma_sub_entities_unfold(*entity, before);
    }
    let subs: Option<&Vec<Json>> = entity.get_array("entities");
    match subs {
        Some(subs) => {
            let mut i: usize = 0;
            proof {
                assert(subs@ == sub_entities(*entity));
                assert(subs@.skip(0) =~= subs@);
            }
            while i < subs.len()
                invariant
                    i <= subs.len(),
                    subs@ == sub_entities(*entity),
                    process_entity_spec(*entity, before) == process_all(subs@.skip(i as int), parsed@),
                decreases subs.len() - i,
            {
                proof {
                    assert(subs@.skip(i as int).drop_first() =~= subs@.skip(i + 1));
                    assert(subs@.skip(i as int)[0] == subs@[i as int]);
                    lemma_sub_entity_smaller(*entity, i as int);
                }
                process_entity(&subs[i], parsed);
                i += 1;
            }
            proof {
                assert(subs@.skip(subs.len() as int) =~= Seq::<Json>::empty());
            }
        },
        None => {
            proof {
                assert(sub_entities(*entity) =~= Seq::<Json>::empty());
            }
        },
    }
}

impl RdapClient {
    /// A client whose requests time out after `timeout_ms` milliseconds.
    pub fn new(timeout_ms: u64) -> (r: RdapClient)
        ensures
            r.timeout_ms == timeout_ms,
    {
        RdapClient { timeout_ms }
    }

    /// The request timeout in whole seconds: the millisecond timeout rounded
    /// up, and at least one second.
    pub fn timeout_secs(&self) -> (r: u64)
        ensures
            r == (if self.timeout_ms == 0 {
                1
            } else {
                (self.timeout_ms + 999) / 1000
            }),
    {
        let whole = self.timeout_ms / 1000;
        let r = if self.timeout_ms % 1000 != 0 {
            whole + 1
        } else {
            whole
        };
        if r == 0 {
            1
        } else {
            r
        }
    }

    /// Parses an RDAP IP network object into structured fields.
    pub fn parse(json: &Json) -> (r: ParsedRdap)
        ensures
            r@ == parse_rdap_spec(*json),
    {
        let statuses = match json.get_array("status") {
            Some(s) => strings_exec(s),
            None => Vec::new(),
        };
        let mut parsed = ParsedRdap {
            country: match json.get_str("country") {
                Some(s) => Some(s.clone()),
                None => None,
            },
            owner_name: None,
            address: None,
            emails: Vec::new(),
            abuse_emails: Vec::new(),
            phone: None,
            fax: None,
            from_ip: match json.get_str("startAddress") {
                Some(s) => Some(s.clone()),
                None => None,
            },
            to_ip: match json.get_str("endAddress") {
                Some(s) => Some(s.clone()),
                None => None,
            },
            status: if statuses.len() > 0 {
                Some(join_strings(&statuses, ", "))
            } else {
                None
            },
            network_name: match json.get_str("name") {
                Some(s) => Some(s.clone()),
                None => None,
            },
            contact_name: None,
            allocated: extract_event_date(json, "registration"),
            cidr: extract_cidr(json),
            postal_code: None,
            abuse_contact: None,
        };
        proof {
            assert(statuses.deep_view() =~= (match field_arr(*json, "status"@) {
                Some(s) => strings_in(s),
                None => seq![],
            }));
            assert(parsed@ =~= top_fields(*json));
        }
        match json.get_array("entities") {
            Some(es) => {
                let ghost top = parsed@;
                let mut i: usize = 0;
                proof {
                    assert(es@.skip(0) =~= es@);
                }
                while i < es.len()
                    invariant
                        i <= es.len(),
                        process_all(es@, top) == process_all(es@.skip(i as int), parsed@),
                    decreases es.len() - i,
                {
                    proof {
                        assert(es@.skip(i as int).drop_first() =~= es@.skip(i + 1));
                        assert(es@.skip(i as int)[0] == es@[i as int]);
                    }
                    process_entity(&es[i], &mut parsed);
                    i += 1;
                }
                proof {
                    assert(es@.skip(es.len() as int) =~= Seq::<Json>::empty());
                }
            },
            None => {},
        }
        parsed
    }
}

} // verus!
