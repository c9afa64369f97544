//! Parsing of raw WHOIS text (RIPE-style and ARIN-style responses).
use vstd::prelude::*;

use crate::text::{
    ascii_lower, lemma_trim_idempotent, chars_of, contains_value, eq_lit, join, join_strings, lemma_lines_end, lines, lower_vec, next_line,
    split_once_char, split_once_char_exec, split_once_sub, split_once_sub_exec, string_of, trim,
    trim_vec,
};

verus! {

// ---------------------------------------------------------------------------
// Model
// ---------------------------------------------------------------------------

/// The fields that a registry response (RDAP or WHOIS) yields, as character
/// sequences.
#[verifier::ext_equal]
pub struct RegistryFields {
    pub country: Option<Seq<char>>,
    pub owner_name: Option<Seq<char>>,
    pub address: Option<Seq<char>>,
    pub emails: Seq<Seq<char>>,
    pub abuse_emails: Seq<Seq<char>>,
    pub phone: Option<Seq<char>>,
    pub fax: Option<Seq<char>>,
    pub from_ip: Option<Seq<char>>,
    pub to_ip: Option<Seq<char>>,
    pub status: Option<Seq<char>>,
    pub network_name: Option<Seq<char>>,
    pub contact_name: Option<Seq<char>>,
    pub allocated: Option<Seq<char>>,
    pub cidr: Option<Seq<char>>,
    pub postal_code: Option<Seq<char>>,
    pub abuse_contact: Option<Seq<char>>,
}

/// All fields extracted from a raw WHOIS text response.
#[derive(Clone, Debug)]
pub struct ParsedWhois {
    pub country: Option<String>,
    pub owner_name: Option<String>,
    pub address: Option<String>,
    pub emails: Vec<String>,
    pub abuse_emails: Vec<String>,
    pub phone: Option<String>,
    pub fax: Option<String>,
    pub from_ip: Option<String>,
    pub to_ip: Option<String>,
    pub status: Option<String>,
    pub network_name: Option<String>,
    pub contact_name: Option<String>,
    pub allocated: Option<String>,
    pub cidr: Option<String>,
    pub postal_code: Option<String>,
    pub abuse_contact: Option<String>,
}

impl View for ParsedWhois {
    type V = RegistryFields;

    open spec fn view(&self) -> RegistryFields {
        RegistryFields {
            country: self.country.deep_view(),
            owner_name: self.owner_name.deep_view(),
            address: self.address.deep_view(),
            emails: self.emails.deep_view(),
            abuse_emails: self.abuse_emails.deep_view(),
            phone: self.phone.deep_view(),
            fax: self.fax.deep_view(),
            from_ip: self.from_ip.deep_view(),
            to_ip: self.to_ip.deep_view(),
            status: self.status.deep_view(),
            network_name: self.network_name.deep_view(),
            contact_name: self.contact_name.deep_view(),
            allocated: self.allocated.deep_view(),
            cidr: self.cidr.deep_view(),
            postal_code: self.postal_code.deep_view(),
            abuse_contact: self.abuse_contact.deep_view(),
        }
    }
}

/// No field known.
pub open spec fn empty_fields() -> RegistryFields {
    RegistryFields {
        country: None,
        owner_name: None,
        address: None,
        emails: seq![],
        abuse_emails: seq![],
        phone: None,
        fax: None,
        from_ip: None,
        to_ip: None,
        status: None,
        network_name: None,
        contact_name: None,
        allocated: None,
        cidr: None,
        postal_code: None,
        abuse_contact: None,
    }
}

impl ParsedWhois {
    /// A result with no field known.
    pub fn empty() -> (r: ParsedWhois)
        ensures
            r@ == empty_fields(),
    {
        ParsedWhois {
            country: None,
            owner_name: None,
            address: None,
            emails: Vec::new(),
            abuse_emails: Vec::new(),
            phone: None,
            fax: None,
            from_ip: None,
            to_ip: None,
            status: None,
            network_name: None,
            contact_name: None,
            allocated: None,
            cidr: None,
            postal_code: None,
            abuse_contact: None,
        }
    }
}

impl Default for ParsedWhois {
    fn default() -> (r: ParsedWhois)
        ensures
            r@ == empty_fields(),
    {
        ParsedWhois::empty()
    }
}

/// `o.get_or_insert(v)`: the first value seen wins.
pub open spec fn keep_first(o: Option<Seq<char>>, v: Seq<char>) -> Option<Seq<char>> {
    if o is Some {
        o
    } else {
        Some(v)
    }
}

/// Appends `v` unless it is already present.
pub open spec fn push_unique_spec(s: Seq<Seq<char>>, v: Seq<char>) -> Seq<Seq<char>> {
    if s.contains(v) {
        s
    } else {
        s.push(v)
    }
}

/// Splits `"a - b"` into `(a, Some(b))`; anything else into `(value, None)`.
pub open spec fn split_ip_range_spec(s: Seq<char>) -> (Seq<char>, Option<Seq<char>>) {
    match split_once_sub(s, " - "@) {
        Some((a, b)) => (trim(a), Some(trim(b))),
        None => (trim(s), None),
    }
}

/// What a WHOIS key (lower-cased) contributes to.
pub enum WhoisKey {
    Country,
    NetName,
    OrgName,
    Organization,
    Descr,
    Address,
    City,
    State,
    PostalCode,
    Email,
    AbuseEmail,
    Phone,
    Fax,
    Range,
    Cidr,
    Status,
    Allocated,
    Contact,
    AbuseHandle,
    AbuseName,
    Other,
}

/// Classification of a lower-cased key.
pub open spec fn whois_key(k: Seq<char>) -> WhoisKey {
    if k == "country"@ {
        WhoisKey::Country
    } else if k == "netname"@ || k == "net-name"@ {
        WhoisKey::NetName
    } else if k == "orgname"@ || k == "org-name"@ {
        WhoisKey::OrgName
    } else if k == "organization"@ || k == "organisation"@ {
        WhoisKey::Organization
    } else if k == "descr"@ {
        WhoisKey::Descr
    } else if k == "address"@ {
        WhoisKey::Address
    } else if k == "city"@ {
        WhoisKey::City
    } else if k == "stateprov"@ || k == "statename"@ || k == "state-province"@ {
        WhoisKey::State
    } else if k == "postalcode"@ || k == "postal-code"@ {
        WhoisKey::PostalCode
    } else if k == "e-mail"@ || k == "email"@ || k == "orgtechemail"@ || k == "orgadminemail"@ {
        WhoisKey::Email
    } else if k == "abuse-mailbox"@ || k == "abuse-email"@ || k == "orgabuseemail"@
        || k == "orgabusemail"@ {
        WhoisKey::AbuseEmail
    } else if k == "phone"@ || k == "orgabusephone"@ || k == "orgtechphone"@ {
        WhoisKey::Phone
    } else if k == "fax-no"@ || k == "fax"@ {
        WhoisKey::Fax
    } else if k == "inetnum"@ || k == "inet6num"@ || k == "netrange"@ {
        WhoisKey::Range
    } else if k == "cidr"@ || k == "route"@ || k == "route6"@ {
        WhoisKey::Cidr
    } else if k == "status"@ {
        WhoisKey::Status
    } else if k == "regdate"@ || k == "created"@ || k == "registration-date"@ {
        WhoisKey::Allocated
    } else if k == "person"@ || k == "role"@ || k == "orgtechname"@ || k == "orgadminname"@ {
        WhoisKey::Contact
    } else if k == "abuse-c"@ {
        WhoisKey::AbuseHandle
    } else if k == "orgabusename"@ {
        WhoisKey::AbuseName
    } else {
        WhoisKey::Other
    }
}

/// The state of a scan over the lines of a response.
#[verifier::ext_equal]
pub struct WhoisScan {
    pub f: RegistryFields,
    /// The first contiguous block of `address:` values.
    pub addr: Seq<Seq<char>>,
    pub collecting: bool,
    pub addr_done: bool,
    pub city: Option<Seq<char>>,
    pub state: Option<Seq<char>>,
}

pub open spec fn scan_start() -> WhoisScan {
    WhoisScan {
        f: empty_fields(),
        addr: seq![],
        collecting: false,
        addr_done: false,
        city: None,
        state: None,
    }
}

/// Ends the address block being collected, if any.
pub open spec fn stop_addr(st: WhoisScan) -> WhoisScan {
    if st.collecting {
        WhoisScan { collecting: false, addr_done: true, ..st }
    } else {
        st
    }
}

/// The effect of one `key: value` pair with a non-empty value.
pub open spec fn apply_key(st: WhoisScan, key: WhoisKey, v: Seq<char>) -> WhoisScan {
    let f = st.f;
    match key {
        WhoisKey::Country => WhoisScan { f: RegistryFields { country: keep_first(f.country, v), ..f }, ..st },
        WhoisKey::NetName => WhoisScan {
            f: RegistryFields { network_name: keep_first(f.network_name, v), ..f },
            ..st
        },
        WhoisKey::OrgName => WhoisScan { f: RegistryFields { owner_name: Some(v), ..f }, ..st },
        WhoisKey::Organization => WhoisScan {
            f: RegistryFields { owner_name: keep_first(f.owner_name, v), ..f },
            ..st
        },
        WhoisKey::Descr => WhoisScan {
            f: RegistryFields { owner_name: keep_first(f.owner_name, v), ..f },
            ..st
        },
        WhoisKey::Address => if !st.addr_done {
            WhoisScan { addr: st.addr.push(v), collecting: true, ..st }
        } else {
            st
        },
        WhoisKey::City => WhoisScan { city: keep_first(st.city, v), ..st },
        WhoisKey::State => WhoisScan { state: keep_first(st.state, v), ..st },
        WhoisKey::PostalCode => WhoisScan {
            f: RegistryFields { postal_code: keep_first(f.postal_code, v), ..f },
            ..st
        },
        WhoisKey::Email => WhoisScan {
            f: RegistryFields { emails: push_unique_spec(f.emails, v), ..f },
            ..st
        },
        WhoisKey::AbuseEmail => WhoisScan {
            f: RegistryFields { abuse_emails: push_unique_spec(f.abuse_emails, v), ..f },
            ..st
        },
        WhoisKey::Phone => WhoisScan { f: RegistryFields { phone: keep_first(f.phone, v), ..f }, ..st },
        WhoisKey::Fax => WhoisScan { f: RegistryFields { fax: keep_first(f.fax, v), ..f }, ..st },
        WhoisKey::Range => {
            let (from, to) = split_ip_range_spec(v);
            WhoisScan {
                f: RegistryFields {
                    from_ip: keep_first(f.from_ip, from),
                    to_ip: match to {
                        Some(t) => keep_first(f.to_ip, t),
                        None => f.to_ip,
                    },
                    ..f
                },
                ..st
            }
        },
        WhoisKey::Cidr => WhoisScan { f: RegistryFields { cidr: keep_first(f.cidr, v), ..f }, ..st },
        WhoisKey::Status => WhoisScan { f: RegistryFields { status: keep_first(f.status, v), ..f }, ..st },
        WhoisKey::Allocated => WhoisScan {
            f: RegistryFields { allocated: keep_first(f.allocated, v), ..f },
            ..st
        },
        WhoisKey::Contact => WhoisScan {
            f: RegistryFields { contact_name: keep_first(f.contact_name, v), ..f },
            ..st
        },
        WhoisKey::AbuseHandle => WhoisScan {
            f: RegistryFields { abuse_contact: keep_first(f.abuse_contact, v), ..f },
            ..st
        },
        WhoisKey::AbuseName => WhoisScan { f: RegistryFields { abuse_contact: Some(v), ..f }, ..st },
        WhoisKey::Other => st,
    }
}

/// The effect of one raw line on the scan.
pub open spec fn whois_step(st: WhoisScan, raw: Seq<char>) -> WhoisScan {
    let line = trim(raw);
    if line.len() == 0 {
        stop_addr(st)
    } else if line[0] == '%' || line[0] == '#' {
        st
    } else {
        match split_once_char(line, ':') {
            None => st,
            Some((k0, v0)) => {
                let v = trim(v0);
                if v.len() == 0 {
                    stop_addr(st)
                } else {
                    let key = ascii_lower(trim(k0));
                    let st1 = if key != "address"@ {
                        stop_addr(st)
                    } else {
                        st
                    };
                    apply_key(st1, whois_key(key), v)
                }
            },
        }
    }
}

/// The scan after the lines `ls`, in order.
pub open spec fn whois_fold(ls: Seq<Seq<char>>, st: WhoisScan) -> WhoisScan
    decreases ls.len(),
{
    if ls.len() == 0 {
        st
    } else {
        whois_fold(ls.drop_first(), whois_step(st, ls[0]))
    }
}

proof fn lemma_range_keys()
    ensures
        whois_key("inetnum"@) == WhoisKey::Range,
        whois_key("inet6num"@) == WhoisKey::Range,
        whois_key("netrange"@) == WhoisKey::Range,
        "inetnum"@ != "address"@,
        "inet6num"@ != "address"@,
        "netrange"@ != "address"@,
{
    reveal_strlit("country");
    reveal_strlit("netname");
    reveal_strlit("net-name");
    reveal_strlit("orgname");
    reveal_strlit("org-name");
    reveal_strlit("organization");
    reveal_strlit("organisation");
    reveal_strlit("descr");
    reveal_strlit("address");
    reveal_strlit("city");
    reveal_strlit("stateprov");
    reveal_strlit("statename");
    reveal_strlit("state-province");
    reveal_strlit("postalcode");
    reveal_strlit("postal-code");
    reveal_strlit("e-mail");
    reveal_strlit("email");
    reveal_strlit("orgtechemail");
    reveal_strlit("orgadminemail");
    reveal_strlit("abuse-mailbox");
    reveal_strlit("abuse-email");
    reveal_strlit("orgabuseemail");
    reveal_strlit("orgabusemail");
    reveal_strlit("phone");
    reveal_strlit("orgabusephone");
    reveal_strlit("orgtechphone");
    reveal_strlit("fax-no");
    reveal_strlit("fax");
    reveal_strlit("inetnum");
    reveal_strlit("inet6num");
    reveal_strlit("netrange");
    assert("inetnum"@[0] != "country"@[0]);
    assert("inetnum"@[0] != "netname"@[0]);
    assert("inetnum"@[0] != "orgname"@[0]);
    assert("inetnum"@[0] != "address"@[0]);
    assert("inet6num"@[0] != "net-name"@[0]);
    assert("inet6num"@[0] != "org-name"@[0]);
    assert("netrange"@[3] != "net-name"@[3]);
    assert("netrange"@[0] != "org-name"@[0]);
}

/// A range line (`inetnum:`, `inet6num:` or `NetRange:`, in any case) sets
/// the start of the range, when none was seen yet, to its value; a value
/// written `a - b` gives the start `a` and, when none was seen yet, the end
/// `b`. The first range seen wins, and no other field changes.
pub proof fn law_range_line(st: WhoisScan, raw: Seq<char>, k0: Seq<char>, v0: Seq<char>)
    requires
        trim(raw).len() > 0,
        trim(raw)[0] != '%',
        trim(raw)[0] != '#',
        split_once_char(trim(raw), ':') == Some((k0, v0)),
        trim(v0).len() > 0,
        ascii_lower(trim(k0)) == "inetnum"@ || ascii_lower(trim(k0)) == "inet6num"@ || ascii_lower(
            trim(k0),
        ) == "netrange"@,
    ensures
        ({
            let r = whois_step(st, raw).f;
            &&& st.f.from_ip is Some ==> r.from_ip == st.f.from_ip
            &&& st.f.to_ip is Some ==> r.to_ip == st.f.to_ip
            &&& split_once_sub(trim(v0), " - "@) is None ==> r.to_ip == st.f.to_ip
            &&& (split_once_sub(trim(v0), " - "@) is None && st.f.from_ip is None) ==> r.from_ip == Some(
                trim(v0),
            )
            &&& split_once_sub(trim(v0), " - "@) matches Some((a, b)) ==> (st.f.from_ip is None
                ==> r.from_ip == Some(trim(a))) && (st.f.to_ip is None ==> r.to_ip == Some(trim(b)))
            &&& r.country == st.f.country && r.owner_name == st.f.owner_name && r.network_name
                == st.f.network_name && r.cidr == st.f.cidr && r.phone == st.f.phone && r.emails
                == st.f.emails
        }),
{
    lemma_trim_idempotent(v0);
    let key = ascii_lower(trim(k0));
    lemma_range_keys();
    let st1 = stop_addr(st);
    assert(st1.f == st.f);
    assert(whois_step(st, raw) == apply_key(st1, WhoisKey::Range, trim(v0)));
}

/// The present values among `os`, in order.
pub open spec fn present(os: Seq<Option<Seq<char>>>) -> Seq<Seq<char>>
    decreases os.len(),
{
    if os.len() == 0 {
        seq![]
    } else {
        match os.last() {
            Some(v) => present(os.drop_last()).push(v),
            None => present(os.drop_last()),
        }
    }
}

/// The final address built from a finished scan.
pub open spec fn finish_scan(st: WhoisScan) -> RegistryFields {
    if st.city is Some || st.state is Some {
        let street = if st.addr.len() > 0 {
            Some(st.addr[0])
        } else {
            None
        };
        let comps = present(seq![street, st.city, st.state, st.f.postal_code, st.f.country]);
        if comps.len() > 0 {
            RegistryFields { address: Some(join(comps, ", "@)), ..st.f }
        } else {
            st.f
        }
    } else if st.addr.len() > 0 {
        RegistryFields { address: Some(join(st.addr, ", "@)), ..st.f }
    } else {
        st.f
    }
}

/// The fields that a raw WHOIS response yields.
pub open spec fn parse_whois(raw: Seq<char>) -> RegistryFields {
    finish_scan(whois_fold(lines(raw), scan_start()))
}

// ---------------------------------------------------------------------------
// Executable scanner
// ---------------------------------------------------------------------------

struct Scanner {
    f: ParsedWhois,
    addr: Vec<String>,
    collecting: bool,
    addr_done: bool,
    city: Option<String>,
    state: Option<String>,
}

impl View for Scanner {
    type V = WhoisScan;

    closed spec fn view(&self) -> WhoisScan {
        WhoisScan {
            f: self.f@,
            addr: self.addr.deep_view(),
            collecting: self.collecting,
            addr_done: self.addr_done,
            city: self.city.deep_view(),
            state: self.state.deep_view(),
        }
    }
}

/// Sets `o` to `v` unless it already holds a value.
pub fn keep_first_exec(o: &mut Option<String>, v: &[char])
    ensures
        final(o).deep_view() == keep_first(old(o).deep_view(), v@),
{
    if o.is_none() {
        *o = Some(string_of(v));
    }
}

/// Appends `v` to `list` unless it is already present.
pub fn push_unique(list: &mut Vec<String>, v: &[char])
    ensures
        final(list).deep_view() == push_unique_spec(old(list).deep_view(), v@),
{
    if !contains_value(list, v) {
        list.push(string_of(v));
        proof {
            assert(list.deep_view() =~= old(list).deep_view().push(v@));
        }
    }
}

/// Splits `"x - y"` into `(x, Some(y))`; anything else into `(value, None)`.
pub fn split_ip_range(s: &str) -> (r: (String, Option<String>))
    ensures
        r.0@ == split_ip_range_spec(s@).0,
        r.1.deep_view() == split_ip_range_spec(s@).1,
{
    let v = chars_of(s);
    let (a, b) = split_ip_range_chars(&v);
    (string_of(&a), match b {
        Some(x) => Some(string_of(&x)),
        None => None,
    })
}

fn split_ip_range_chars(v: &[char]) -> (r: (Vec<char>, Option<Vec<char>>))
    ensures
        r.0@ == split_ip_range_spec(v@).0,
        r.1.deep_view() == split_ip_range_spec(v@).1,
{
    let sep = chars_of(" - ");
    match split_once_sub_exec(v, &sep) {
        Some((a, b)) => (trim_vec(&a), Some(trim_vec(&b))),
        None => (trim_vec(v), None),
    }
}

fn classify(k: &[char]) -> (r: WhoisKey)
    ensures
        r == whois_key(k@),
{
    if eq_lit(k, "country") {
        WhoisKey::Country
    } else if eq_lit(k, "netname") || eq_lit(k, "net-name") {
        WhoisKey::NetName
    } else if eq_lit(k, "orgname") || eq_lit(k, "org-name") {
        WhoisKey::OrgName
    } else if eq_lit(k, "organization") || eq_lit(k, "organisation") {
        WhoisKey::Organization
    } else if eq_lit(k, "descr") {
        WhoisKey::Descr
    } else if eq_lit(k, "address") {
        WhoisKey::Address
    } else if eq_lit(k, "city") {
        WhoisKey::City
    } else if eq_lit(k, "stateprov") || eq_lit(k, "statename") || eq_lit(k, "state-province") {
        WhoisKey::State
    } else if eq_lit(k, "postalcode") || eq_lit(k, "postal-code") {
        WhoisKey::PostalCode
    } else if eq_lit(k, "e-mail") || eq_lit(k, "email") || eq_lit(k, "orgtechemail") || eq_lit(
        k,
        "orgadminemail",
    ) {
        WhoisKey::Email
    } else if eq_lit(k, "abuse-mailbox") || eq_lit(k, "abuse-email") || eq_lit(k, "orgabuseemail")
        || eq_lit(k, "orgabusemail") {
        WhoisKey::AbuseEmail
    } else if eq_lit(k, "phone") || eq_lit(k, "orgabusephone") || eq_lit(k, "orgtechphone") {
        WhoisKey::Phone
    } else if eq_lit(k, "fax-no") || eq_lit(k, "fax") {
        WhoisKey::Fax
    } else if eq_lit(k, "inetnum") || eq_lit(k, "inet6num") || eq_lit(k, "netrange") {
        WhoisKey::Range
    } else if eq_lit(k, "cidr") || eq_lit(k, "route") || eq_lit(k, "route6") {
        WhoisKey::Cidr
    } else if eq_lit(k, "status") {
        WhoisKey::Status
    } else if eq_lit(k, "regdate") || eq_lit(k, "created") || eq_lit(k, "registration-date") {
        WhoisKey::Allocated
    } else if eq_lit(k, "person") || eq_lit(k, "role") || eq_lit(k, "orgtechname") || eq_lit(
        k,
        "orgadminname",
    ) {
        WhoisKey::Contact
    } else if eq_lit(k, "abuse-c") {
        WhoisKey::AbuseHandle
    } else if eq_lit(k, "orgabusename") {
        WhoisKey::AbuseName
    } else {
        WhoisKey::Other
    }
}

impl Scanner {
    fn new() -> (r: Scanner)
        ensures
            r@ == scan_start(),
    {
        Scanner {
            f: ParsedWhois::empty(),
            addr: Vec::new(),
            collecting: false,
            addr_done: false,
            city: None,
            state: None,
        }
    }

    fn stop(&mut self)
        ensures
            final(self)@ == stop_addr(old(self)@),
    {
        if self.collecting {
            self.collecting = false;
            self.addr_done = true;
        }
    }

    fn apply(&mut self, key: WhoisKey, v: &[char])
        ensures
            final(self)@ == apply_key(old(self)@, key, v@),
    {
        match key {
            WhoisKey::Country => keep_first_exec(&mut self.f.country, v),
            WhoisKey::NetName => keep_first_exec(&mut self.f.network_name, v),
            WhoisKey::OrgName => {
                self.f.owner_name = Some(string_of(v));
            },
            WhoisKey::Organization => keep_first_exec(&mut self.f.owner_name, v),
            WhoisKey::Descr => keep_first_exec(&mut self.f.owner_name, v),
            WhoisKey::Address => {
                if !self.addr_done {
                    self.addr.push(string_of(v));
                    self.collecting = true;
                    proof {
                        assert(self.addr.deep_view() =~= old(self).addr.deep_view().push(v@));
                    }
                }
            },
            WhoisKey::City => keep_first_exec(&mut self.city, v),
            WhoisKey::State => keep_first_exec(&mut self.state, v),
            WhoisKey::PostalCode => keep_first_exec(&mut self.f.postal_code, v),
            WhoisKey::Email => push_unique(&mut self.f.emails, v),
            WhoisKey::AbuseEmail => push_unique(&mut self.f.abuse_emails, v),
            WhoisKey::Phone => keep_first_exec(&mut self.f.phone, v),
            WhoisKey::Fax => keep_first_exec(&mut self.f.fax, v),
            WhoisKey::Range => {
                let (from, to) = split_ip_range_chars(v);
                keep_first_exec(&mut self.f.from_ip, &from);
                match to {
                    Some(t) => keep_first_exec(&mut self.f.to_ip, &t),
                    None => {},
                }
            },
            WhoisKey::Cidr => keep_first_exec(&mut self.f.cidr, v),
            WhoisKey::Status => keep_first_exec(&mut self.f.status, v),
            WhoisKey::Allocated => keep_first_exec(&mut self.f.allocated, v),
            WhoisKey::Contact => keep_first_exec(&mut self.f.contact_name, v),
            WhoisKey::AbuseHandle => keep_first_exec(&mut self.f.abuse_contact, v),
            WhoisKey::AbuseName => {
                self.f.abuse_contact = Some(string_of(v));
            },
            WhoisKey::Other => {},
        }
    }

    fn step(&mut self, raw: &[char])
        ensures
            final(self)@ == whois_step(old(self)@, raw@),
    {
        let line = trim_vec(raw);
        if line.len() == 0 {
            self.stop();
            return ;
        }
        if line[0] == '%' || line[0] == '#' {
            return ;
        }
        match split_once_char_exec(&line, ':') {
            None => {},
            Some((k0, v0)) => {
                let v = trim_vec(&v0);
                if v.len() == 0 {
                    self.stop();
                } else {
                    let kt = trim_vec(&k0);
                    let key = lower_vec(&kt);
                    if !eq_lit(&key, "address") {
                        self.stop();
                    }
                    let class = classify(&key);
                    self.apply(class, &v);
                }
            },
        }
    }
}

/// The values that are present, in order.
fn present_exec(os: Vec<Option<String>>) -> (r: Vec<String>)
    ensures
        r.deep_view() == present(os.deep_view()),
{
    let mut r: Vec<String> = Vec::new();
    let mut i: usize = 0;
    while i < os.len()
        invariant
            i <= os.len(),
            r.deep_view() == present(os.deep_view().take(i as int)),
        decreases os.len() - i,
    {
        let ghost pre = os.deep_view().take(i as int);
        proof {
            assert(os.deep_view().take(i + 1).drop_last() =~= pre);
        }
        match &os[i] {
            Some(v) => {
                r.push(v.clone());
                proof {
                    assert(r.deep_view() =~= present(pre).push(v@));
                }
            },
            None => {},
        }
        i += 1;
    }
    proof {
        assert(os.deep_view().take(os.len() as int) =~= os.deep_view());
    }
    r
}

fn opt_clone(o: &Option<String>) -> (r: Option<String>)
    ensures
        r.deep_view() == o.deep_view(),
{
    match o {
        Some(s) => Some(s.clone()),
        None => None,
    }
}

/// Parses a raw WHOIS text response into structured fields.
pub fn parse_whois_exec(raw: &str) -> (r: ParsedWhois)
    ensures
        r@ == parse_whois(raw@),
{
    let v = chars_of(raw);
    let mut sc = Scanner::new();
    let mut pos: usize = 0;
    proof {
        assert(v@.skip(0) =~= v@);
    }
    while pos < v.len()
        invariant
            pos <= v.len(),
            whois_fold(lines(v@), scan_start()) == whois_fold(lines(v@.skip(pos as int)), sc@),
        decreases v.len() - pos,
    {
        let (line, next) = next_line(&v, pos);
        let ghost before = sc@;
        sc.step(&line);
        proof {
            let ls = lines(v@.skip(pos as int));
            let rest = lines(v@.skip(next as int));
            assert(ls.drop_first() =~= rest);
            assert(ls[0] == line@);
        }
        pos = next;
    }
    proof {
        lemma_lines_end(v@);
    }
    let mut f = sc.f;
    if sc.city.is_some() || sc.state.is_some() {
        let street = if sc.addr.len() > 0 {
            Some(sc.addr[0].clone())
        } else {
            None
        };
        let mut parts: Vec<Option<String>> = Vec::new();
        parts.push(street);
        parts.push(sc.city);
        parts.push(sc.state);
        parts.push(opt_clone(&f.postal_code));
        parts.push(opt_clone(&f.country));
        let ghost pv = parts.deep_view();
        proof {
            assert(pv =~= seq![
                if sc.addr.deep_view().len() > 0 { Some(sc.addr.deep_view()[0]) } else { None },
                sc@.city, sc@.state, sc@.f.postal_code, sc@.f.country]);
        }
        let comps = present_exec(parts);
        if comps.len() > 0 {
            f.address = Some(join_strings(&comps, ", "));
        }
    } else if sc.addr.len() > 0 {
        f.address = Some(join_strings(&sc.addr, ", "));
    }
    f
}

} // verus!
