//! The lookup record and the types embedded in it.
use vstd::prelude::*;

use crate::json::Json;
use crate::text::{dec, dec_string, join, join_strings};

verus! {

// ---------------------------------------------------------------------------
// BGP
// ---------------------------------------------------------------------------

/// A BGP neighbour of an autonomous system.
#[derive(Clone, Debug)]
pub struct BgpPeer {
    pub asn: u32,
    pub name: Option<String>,
    pub country: Option<String>,
}

/// Routing facts about the autonomous system that announces an address.
#[derive(Clone, Debug)]
pub struct BgpInfo {
    pub asn: Option<u32>,
    pub as_name: Option<String>,
    pub as_country: Option<String>,
    pub prefixes_v4: Vec<String>,
    pub prefixes_v6: Vec<String>,
    pub peers: Vec<BgpPeer>,
}

// ---------------------------------------------------------------------------
// DNS records
// ---------------------------------------------------------------------------

/// A single DNS resource record (A, AAAA, CNAME, TXT, MX, NS, SOA) with TTL.
#[derive(Clone, Debug)]
pub struct DnsRecord {
    /// Record type (`"A"`, `"AAAA"`, `"CNAME"`, `"TXT"`, `"MX"`, `"NS"`, `"SOA"`).
    pub record_type: String,
    /// Record value (an address, a host name or text).
    pub value: String,
    /// Time-to-live in seconds.
    pub ttl: u32,
    /// Whether the answer carried the DNSSEC authenticated-data bit.
    pub dnssec_validated: bool,
}

// ---------------------------------------------------------------------------
// The record
// ---------------------------------------------------------------------------

/// Number of table columns.
pub const N_COLUMNS: usize = 21;

/// Ordered column names as shown in the table, used by every export format.
pub const COLUMNS: [&'static str; 21] = [
    "Order",
    "IP Address",
    "Country",
    "Owner Name",
    "Address",
    "Email",
    "Abuse Email",
    "Phone",
    "Fax",
    "From IP",
    "To IP",
    "Status",
    "Whois Source",
    "Network Name",
    "Contact Name",
    "Allocated",
    "Host Name",
    "Resolved Name",
    "CIDR",
    "Postal Code",
    "Abuse Contact",
];

/// The result of an IP or host name lookup.
#[derive(Debug)]
pub struct IpRecord {
    /// The record identifier: a random (version 4) UUID as a 128-bit value.
    pub id: u128,
    pub order: u32,
    pub ip: String,
    pub country: Option<String>,
    pub owner_name: Option<String>,
    pub address: Option<String>,
    pub emails: Vec<String>,
    pub abuse_emails: Vec<String>,
    pub phone: Option<String>,
    pub fax: Option<String>,
    pub from_ip: Option<String>,
    pub to_ip: Option<String>,
    pub status: Option<String>,
    pub whois_source: Option<String>,
    pub network_name: Option<String>,
    pub contact_name: Option<String>,
    pub allocated: Option<String>,
    pub host_name: Option<String>,
    pub resolved_name: Option<String>,
    pub cidr: Option<String>,
    pub postal_code: Option<String>,
    pub abuse_contact: Option<String>,
    pub raw_whois: Option<String>,
    pub raw_rdap: Option<Json>,
    /// GeoIP latitude, as the bit pattern of the IEEE-754 double.
    pub geo_lat_bits: Option<u64>,
    /// GeoIP longitude, as the bit pattern of the IEEE-754 double.
    pub geo_lon_bits: Option<u64>,
    pub geo_city: Option<String>,
    pub geo_country: Option<String>,
    /// DNS records of a host name target (not shown in the table).
    pub dns_records: Vec<DnsRecord>,
    pub lookup_errors: Vec<String>,
    /// Remarks and comments taken from WHOIS.
    pub remarks: Option<String>,
    /// Last-updated date taken from WHOIS.
    pub updated_at: Option<String>,
    /// `true` when the field was empty after RDAP and WHOIS filled it.
    pub address_enriched: bool,
    pub country_enriched: bool,
    pub phone_enriched: bool,
    pub fax_enriched: bool,
    pub owner_enriched: bool,
    pub remarks_enriched: bool,
    pub dates_enriched: bool,
    pub bgp: Option<BgpInfo>,
}

// ---------------------------------------------------------------------------
// Models
// ---------------------------------------------------------------------------

/// A BGP neighbour, as plain values.
pub struct BgpPeerView {
    pub asn: u32,
    pub name: Option<Seq<char>>,
    pub country: Option<Seq<char>>,
}

/// Routing facts, as plain values.
#[verifier::ext_equal]
pub struct BgpView {
    pub asn: Option<u32>,
    pub as_name: Option<Seq<char>>,
    pub as_country: Option<Seq<char>>,
    pub prefixes_v4: Seq<Seq<char>>,
    pub prefixes_v6: Seq<Seq<char>>,
    pub peers: Seq<BgpPeerView>,
}

/// A DNS record, as plain values.
pub struct DnsRecordView {
    pub record_type: Seq<char>,
    pub value: Seq<char>,
    pub ttl: u32,
    pub dnssec_validated: bool,
}

impl View for BgpPeer {
    type V = BgpPeerView;

    open spec fn view(&self) -> BgpPeerView {
        BgpPeerView { asn: self.asn, name: self.name.deep_view(), country: self.country.deep_view() }
    }
}

impl View for BgpInfo {
    type V = BgpView;

    open spec fn view(&self) -> BgpView {
        BgpView {
            asn: self.asn,
            as_name: self.as_name.deep_view(),
            as_country: self.as_country.deep_view(),
            prefixes_v4: self.prefixes_v4.deep_view(),
            prefixes_v6: self.prefixes_v6.deep_view(),
            peers: self.peers@.map_values(|p: BgpPeer| p@),
        }
    }
}

impl Default for BgpInfo {
    /// No AS, no prefixes, no peers.
    fn default() -> (r: BgpInfo)
        ensures
            r@ == (BgpView {
                asn: None,
                as_name: None,
                as_country: None,
                prefixes_v4: Seq::empty(),
                prefixes_v6: Seq::empty(),
                peers: Seq::empty(),
            }),
    {
        let r = BgpInfo {
            asn: None,
            as_name: None,
            as_country: None,
            prefixes_v4: Vec::new(),
            prefixes_v6: Vec::new(),
            peers: Vec::new(),
        };
        proof {
            assert(r@ =~= (BgpView {
                asn: None,
                as_name: None,
                as_country: None,
                prefixes_v4: Seq::empty(),
                prefixes_v6: Seq::empty(),
                peers: Seq::empty(),
            }));
        }
        r
    }
}

impl View for DnsRecord {
    type V = DnsRecordView;

    open spec fn view(&self) -> DnsRecordView {
        DnsRecordView {
            record_type: self.record_type@,
            value: self.value@,
            ttl: self.ttl,
            dnssec_validated: self.dnssec_validated,
        }
    }
}

/// A lookup record, as plain values.
#[verifier::ext_equal]
pub struct RecordView {
    pub id: u128,
    pub order: u32,
    pub ip: Seq<char>,
    pub country: Option<Seq<char>>,
    pub owner_name: Option<Seq<char>>,
    pub address: Option<Seq<char>>,
    pub emails: Seq<Seq<char>>,
    pub abuse_emails: Seq<Seq<char>>,
    pub phone: Option<Seq<char>>,
    pub fax: Option<Seq<char>>,
    pub from_ip: Option<Seq<char>>,
    pub to_ip: Option<Seq<char>>,
    pub status: Option<Seq<char>>,
    pub whois_source: Option<Seq<char>>,
    pub network_name: Option<Seq<char>>,
    pub contact_name: Option<Seq<char>>,
    pub allocated: Option<Seq<char>>,
    pub host_name: Option<Seq<char>>,
    pub resolved_name: Option<Seq<char>>,
    pub cidr: Option<Seq<char>>,
    pub postal_code: Option<Seq<char>>,
    pub abuse_contact: Option<Seq<char>>,
    pub raw_whois: Option<Seq<char>>,
    pub raw_rdap: Option<Json>,
    pub geo_lat_bits: Option<u64>,
    pub geo_lon_bits: Option<u64>,
    pub geo_city: Option<Seq<char>>,
    pub geo_country: Option<Seq<char>>,
    pub dns_records: Seq<DnsRecordView>,
    pub lookup_errors: Seq<Seq<char>>,
    pub remarks: Option<Seq<char>>,
    pub updated_at: Option<Seq<char>>,
    pub address_enriched: bool,
    pub country_enriched: bool,
    pub phone_enriched: bool,
    pub fax_enriched: bool,
    pub owner_enriched: bool,
    pub remarks_enriched: bool,
    pub dates_enriched: bool,
    pub bgp: Option<BgpView>,
}

/// The view of a list of DNS records.
pub open spec fn dns_view(v: Seq<DnsRecord>) -> Seq<DnsRecordView> {
    v.map_values(|d: DnsRecord| d@)
}

impl View for IpRecord {
    type V = RecordView;

    open spec fn view(&self) -> RecordView {
        RecordView {
            id: self.id,
            order: self.order,
            ip: self.ip@,
            country: self.country.deep_view(),
            owner_name: self.owner_name.deep_view(),
            address: self.address.deep_view(),
            emails: self.emails.deep_view(),
            abuse_emails: self.abuse_emails.deep_view(),
            phone: self.phone.deep_view(),
            fax: self.fax.deep_view(),
            from_ip: self.from_ip.deep_view(),
            to_ip: self.to_ip.deep_view(),
            status: self.status.deep_view(),
            whois_source: self.whois_source.deep_view(),
            network_name: self.network_name.deep_view(),
            contact_name: self.contact_name.deep_view(),
            allocated: self.allocated.deep_view(),
            host_name: self.host_name.deep_view(),
            resolved_name: self.resolved_name.deep_view(),
            cidr: self.cidr.deep_view(),
            postal_code: self.postal_code.deep_view(),
            abuse_contact: self.abuse_contact.deep_view(),
            raw_whois: self.raw_whois.deep_view(),
            raw_rdap: self.raw_rdap,
            geo_lat_bits: self.geo_lat_bits,
            geo_lon_bits: self.geo_lon_bits,
            geo_city: self.geo_city.deep_view(),
            geo_country: self.geo_country.deep_view(),
            dns_records: dns_view(self.dns_records@),
            lookup_errors: self.lookup_errors.deep_view(),
            remarks: self.remarks.deep_view(),
            updated_at: self.updated_at.deep_view(),
            address_enriched: self.address_enriched,
            country_enriched: self.country_enriched,
            phone_enriched: self.phone_enriched,
            fax_enriched: self.fax_enriched,
            owner_enriched: self.owner_enriched,
            remarks_enriched: self.remarks_enriched,
            dates_enriched: self.dates_enriched,
            bgp: match self.bgp {
                Some(b) => Some(b@),
                None => None,
            },
        }
    }
}

/// The text of an optional field in a table cell.
pub open spec fn cell(o: Option<String>) -> Seq<char> {
    match o {
        Some(s) => s@,
        None => Seq::empty(),
    }
}

/// The table row of a record, in the order of [`COLUMNS`].
pub open spec fn row_of(r: IpRecord) -> Seq<Seq<char>> {
    seq![
        dec(r.order as nat),
        r.ip@,
        cell(r.country),
        cell(r.owner_name),
        cell(r.address),
        join(r.emails.deep_view(), "; "@),
        join(r.abuse_emails.deep_view(), "; "@),
        cell(r.phone),
        cell(r.fax),
        cell(r.from_ip),
        cell(r.to_ip),
        cell(r.status),
        cell(r.whois_source),
        cell(r.network_name),
        cell(r.contact_name),
        cell(r.allocated),
        cell(r.host_name),
        cell(r.resolved_name),
        cell(r.cidr),
        cell(r.postal_code),
        cell(r.abuse_contact),
    ]
}

/// Whether `r` is the empty record created for `(id, order, ip)`.
pub open spec fn is_new_record(r: IpRecord, id: u128, order: u32, ip: Seq<char>) -> bool {
    &&& r.id == id
    &&& r.order == order
    &&& r.ip@ == ip
    &&& r.country is None && r.owner_name is None && r.address is None
    &&& r.emails@.len() == 0 && r.abuse_emails@.len() == 0
    &&& r.phone is None && r.fax is None && r.from_ip is None && r.to_ip is None
    &&& r.status is None && r.whois_source is None && r.network_name is None
    &&& r.contact_name is None && r.allocated is None && r.host_name is None
    &&& r.resolved_name is None && r.cidr is None && r.postal_code is None
    &&& r.abuse_contact is None && r.raw_whois is None && r.raw_rdap is None
    &&& r.geo_lat_bits is None && r.geo_lon_bits is None
    &&& r.geo_city is None && r.geo_country is None
    &&& r.dns_records@.len() == 0 && r.lookup_errors@.len() == 0
    &&& r.remarks is None && r.updated_at is None
    &&& !r.address_enriched && !r.country_enriched && !r.phone_enriched
    &&& !r.fax_enriched && !r.owner_enriched && !r.remarks_enriched && !r.dates_enriched
    &&& r.bgp is None
}

/// Bits that every version 4 UUID has: the version nibble is 4 and the
/// variant bits are `10`.
pub open spec fn is_v4_uuid(v: u128) -> bool {
    v & 0xF000C000000000000000u128 == 0x40008000000000000000u128
}

/// Draws a fresh random identifier with `uuid::Uuid::new_v4`. The value is
/// random; the contract states only the version and variant bits that the
/// crate sets on every such UUID.
#[verifier::external_body]
fn new_v4_id() -> (r: u128)
    ensures
        is_v4_uuid(r),
{
    uuid::Uuid::new_v4().as_u128()
}

impl IpRecord {
    /// Creates an empty record for `ip` at position `order`, with a fresh
    /// random identifier.
    pub fn new(order: u32, ip: &str) -> (r: IpRecord)
        ensures
            is_new_record(r, r.id, order, ip@),
            is_v4_uuid(r.id),
    {
        let id = new_v4_id();
        IpRecord::with_id(id, order, ip)
    }

    /// Creates an empty record with the given identifier.
    pub fn with_id(id: u128, order: u32, ip: &str) -> (r: IpRecord)
        ensures
            is_new_record(r, id, order, ip@),
    {
        IpRecord {
            id,
            order,
            ip: ip.to_string(),
            country: None,
            owner_name: None,
            address: None,
            emails: Vec::new(),
            abuse_emails: Vec::new(),
            phone: None,
            fax: None,
            from_ip: None,
            to_ip: None,
            status: None,
            whois_source: None,
            network_name: None,
            contact_name: None,
            allocated: None,
            host_name: None,
            resolved_name: None,
            cidr: None,
            postal_code: None,
            abuse_contact: None,
            raw_whois: None,
            raw_rdap: None,
            geo_lat_bits: None,
            geo_lon_bits: None,
            geo_city: None,
            geo_country: None,
            dns_records: Vec::new(),
            lookup_errors: Vec::new(),
            remarks: None,
            updated_at: None,
            address_enriched: false,
            country_enriched: false,
            phone_enriched: false,
            fax_enriched: false,
            owner_enriched: false,
            remarks_enriched: false,
            dates_enriched: false,
            bgp: None,
        }
    }

    /// Field values in the order of [`COLUMNS`]; e-mail lists are joined
    /// with `"; "` and absent fields are empty.
    pub fn to_row(&self) -> (r: Vec<String>)
        ensures
            r.deep_view() == row_of(*self),
    {
        let mut r: Vec<String> = Vec::new();
        r.push(dec_string(self.order as u64));
        r.push(self.ip.clone());
        r.push(cell_exec(&self.country));
        r.push(cell_exec(&self.owner_name));
        r.push(cell_exec(&self.address));
        r.push(join_strings(&self.emails, "; "));
        r.push(join_strings(&self.abuse_emails, "; "));
        r.push(cell_exec(&self.phone));
        r.push(cell_exec(&self.fax));
        r.push(cell_exec(&self.from_ip));
        r.push(cell_exec(&self.to_ip));
        r.push(cell_exec(&self.status));
        r.push(cell_exec(&self.whois_source));
        r.push(cell_exec(&self.network_name));
        r.push(cell_exec(&self.contact_name));
        r.push(cell_exec(&self.allocated));
        r.push(cell_exec(&self.host_name));
        r.push(cell_exec(&self.resolved_name));
        r.push(cell_exec(&self.cidr));
        r.push(cell_exec(&self.postal_code));
        r.push(cell_exec(&self.abuse_contact));
        proof {
            assert(r.deep_view() =~= row_of(*self));
        }
        r
    }
}

fn cell_exec(o: &Option<String>) -> (r: String)
    ensures
        r@ == cell(*o),
{
    match o {
        Some(s) => s.clone(),
        None => String::new(),
    }
}

/// `16^k`.
pub open spec fn pow16(k: nat) -> nat
    decreases k,
{
    if k == 0 {
        1
    } else {
        16 * pow16((k - 1) as nat)
    }
}

/// Lower-case hexadecimal digit of value `d`.
pub open spec fn lower_hex(d: nat) -> char {
    if d < 10 {
        ((d + 48) as u8) as char
    } else {
        ((d + 87) as u8) as char
    }
}

/// Position `p` of the hyphenated text of a UUID: a hyphen at 8, 13, 18 and
/// 23, otherwise the next hexadecimal digit, most significant first.
pub open spec fn uuid_char(v: u128, p: int) -> char {
    if p == 8 || p == 13 || p == 18 || p == 23 {
        '-'
    } else {
        let k = if p < 8 {
            p
        } else if p < 13 {
            p - 1
        } else if p < 18 {
            p - 2
        } else if p < 23 {
            p - 3
        } else {
            p - 4
        };
        lower_hex(((v as nat) / pow16((31 - k) as nat)) % 16)
    }
}

/// The hyphenated lower-case text of a UUID (`8-4-4-4-12` hex digits).
pub open spec fn uuid_text(v: u128) -> Seq<char> {
    Seq::new(36, |p: int| uuid_char(v, p))
}

/// The text of the identifier `v` as `uuid::Uuid`'s `Display` writes it:
/// the hyphenated lower-case form.
#[verifier::external_body]
pub(crate) fn uuid_string(v: u128) -> (r: String)
    ensures
        r@ == uuid_text(v),
{
    uuid::Uuid::from_u128(v).to_string()
}

// ---------------------------------------------------------------------------
// API request bodies
// ---------------------------------------------------------------------------

/// Body of a bulk lookup request.
#[derive(Clone, Debug)]
pub struct BulkLookupRequest {
    pub targets: Vec<String>,
}

/// Query of an export request.
#[derive(Clone, Debug)]
pub struct ExportQuery {
    pub format: String,
    /// Comma-separated record identifiers (all records when absent or empty).
    pub ids: Option<String>,
}

/// Body of a partial configuration update.
#[derive(Clone, Debug)]
pub struct ConfigUpdateRequest {
    pub locale: Option<String>,
    pub proxy_type: Option<String>,
    pub proxy_host: Option<String>,
    pub proxy_port: Option<u16>,
    pub dns_timeout_ms: Option<u64>,
    pub whois_timeout_ms: Option<u64>,
    pub rdap_timeout_ms: Option<u64>,
    pub default_export_format: Option<String>,
    pub csv_with_header: Option<bool>,
    pub maxmind_account_id: Option<String>,
    pub maxmind_license_key: Option<String>,
}

} // verus!
