use atlasip::whois::client::{WhoisClient, IANA_WHOIS, MAX_RESPONSE_BYTES, WHOIS_PORT};
use atlasip::whois::parse::split_ip_range;
use atlasip::whois::referral::{extract_refer, has_useful_content};

#[test]
fn test_extract_refer_iana_style() {
    let raw = "% IANA WHOIS server\nrefer: whois.arin.net\ninetnum: 8.0.0.0\n";
    assert_eq!(extract_refer(raw), Some("whois.arin.net".to_owned()));
}

#[test]
fn test_extract_refer_whois_key() {
    let raw = "whois: whois.ripe.net\nstatus: ASSIGNED\n";
    assert_eq!(extract_refer(raw), Some("whois.ripe.net".to_owned()));
}

#[test]
fn test_extract_refer_rwhois_scheme() {
    let raw = "ReferralServer: rwhois://rwhois.example.net:4321\n";
    assert_eq!(extract_refer(raw), Some("rwhois.example.net".to_owned()));
}

#[test]
fn test_extract_refer_none() {
    let raw = "% No referral here\nnetname: TEST\n";
    assert_eq!(extract_refer(raw), None);
}

#[test]
fn test_split_ip_range_dash() {
    let (from, to) = split_ip_range("8.8.8.0 - 8.8.8.255");
    assert_eq!(from, "8.8.8.0");
    assert_eq!(to, Some("8.8.8.255".to_owned()));
}

#[test]
fn test_split_ip_range_cidr() {
    let (from, to) = split_ip_range("8.8.8.0/24");
    assert_eq!(from, "8.8.8.0/24");
    assert_eq!(to, None);
}

#[test]
fn test_parse_arin_style() {
    let raw = "\
# ARIN WHOIS
NetRange:       8.8.8.0 - 8.8.8.255
CIDR:           8.8.8.0/24
NetName:        GOGL
Organization:   Google LLC (GOGL)
RegDate:        2023-12-28
Updated:        2023-12-28

OrgName:        Google LLC
OrgId:          GOGL
Address:        1600 Amphitheatre Parkway
City:           Mountain View
StateProv:      CA
PostalCode:     94043
Country:        US
OrgTechEmail:   arin-contact@google.com
OrgAbuseEmail:  network-abuse@google.com
OrgAbuseName:   Abuse
OrgAbusePhone:  +1-650-253-0000
";
    let p = WhoisClient::parse(raw);
    assert_eq!(p.from_ip.as_deref(), Some("8.8.8.0"));
    assert_eq!(p.to_ip.as_deref(), Some("8.8.8.255"));
    assert_eq!(p.cidr.as_deref(), Some("8.8.8.0/24"));
    assert_eq!(p.network_name.as_deref(), Some("GOGL"));
    assert_eq!(p.owner_name.as_deref(), Some("Google LLC"));
    assert_eq!(p.country.as_deref(), Some("US"));
    assert_eq!(p.postal_code.as_deref(), Some("94043"));
    assert_eq!(p.allocated.as_deref(), Some("2023-12-28"));
    assert!(p.emails.contains(&"arin-contact@google.com".to_owned()));
    assert!(p.abuse_emails.contains(&"network-abuse@google.com".to_owned()));
    assert_eq!(p.abuse_contact.as_deref(), Some("Abuse"));
    assert_eq!(p.phone.as_deref(), Some("+1-650-253-0000"));
    let addr = p.address.unwrap();
    assert!(addr.contains("1600 Amphitheatre Parkway"), "addr={addr}");
    assert!(addr.contains("Mountain View"), "addr={addr}");
    assert!(addr.contains("CA"), "addr={addr}");
}

#[test]
fn test_parse_ripe_style() {
    let raw = "\
% RIPE Database
inetnum:        193.0.0.0 - 193.0.7.255
netname:        RIPE-NCC
descr:          RIPE Network Coordination Centre
country:        NL
status:         ASSIGNED PA
created:        2003-03-17T12:15:57Z

org-name:       Reseaux IP Europeens Network Coordination Centre (RIPE NCC)
address:        P.O. Box 10096
address:        1001 EB
address:        Amsterdam
address:        NETHERLANDS
phone:          +31205354444
fax-no:         +31205354445
abuse-mailbox:  abuse@ripe.net

role:           Managing Director
address:        RIPE NCC HQ
address:        Amsterdam
";
    let p = WhoisClient::parse(raw);
    assert_eq!(p.from_ip.as_deref(), Some("193.0.0.0"));
    assert_eq!(p.to_ip.as_deref(), Some("193.0.7.255"));
    assert_eq!(p.network_name.as_deref(), Some("RIPE-NCC"));
    assert_eq!(p.country.as_deref(), Some("NL"));
    assert_eq!(p.status.as_deref(), Some("ASSIGNED PA"));
    assert_eq!(p.allocated.as_deref(), Some("2003-03-17T12:15:57Z"));
    assert_eq!(p.owner_name.as_deref(), Some("Reseaux IP Europeens Network Coordination Centre (RIPE NCC)"));
    assert_eq!(p.phone.as_deref(), Some("+31205354444"));
    assert_eq!(p.fax.as_deref(), Some("+31205354445"));
    assert!(p.abuse_emails.contains(&"abuse@ripe.net".to_owned()));
    let addr = p.address.as_deref().unwrap();
    assert!(addr.contains("P.O. Box 10096"), "addr={addr}");
    assert!(addr.contains("Amsterdam"), "addr={addr}");
    assert!(!addr.contains("RIPE NCC HQ"), "addr={addr}");
}

#[test]
fn test_parse_empty_response() {
    let p = WhoisClient::parse("% No objects found.\n");
    assert!(p.country.is_none());
    assert!(p.from_ip.is_none());
    assert!(p.emails.is_empty());
}

#[test]
fn iana_query_keeps_addresses_and_takes_tlds() {
    assert_eq!(WhoisClient::iana_query(" 8.8.8.8 "), "8.8.8.8");
    assert_eq!(WhoisClient::iana_query("2001:db8::1"), "2001:db8::1");
    assert_eq!(WhoisClient::iana_query("www.example.com"), "com");
    assert_eq!(WhoisClient::iana_query("localhost"), "localhost");
}

#[test]
fn request_line_ends_with_crlf() {
    assert_eq!(WhoisClient::request_line("8.8.8.8"), "8.8.8.8\r\n");
}

#[test]
fn select_result_prefers_useful_referral() {
    let useful = "a: 1\nb: 2\nc: 3\nd: 4\n".to_string();
    let thin = "% comment\na: 1\n".to_string();
    let r = WhoisClient::select_result("iana".to_string(), Some(("whois.arin.net".to_string(), Some(useful.clone()))));
    assert_eq!(r.raw, useful);
    assert_eq!(r.server, "whois.arin.net");
    let r = WhoisClient::select_result("iana".to_string(), Some(("whois.arin.net".to_string(), Some(thin))));
    assert_eq!(r.raw, "iana");
    assert_eq!(r.server, IANA_WHOIS);
    let r = WhoisClient::select_result("iana".to_string(), Some(("whois.arin.net".to_string(), None)));
    assert_eq!(r.server, "whois.iana.org");
    let r = WhoisClient::select_result("iana".to_string(), None);
    assert_eq!(r.raw, "iana");
}

#[test]
fn useful_content_needs_more_than_three_lines() {
    assert!(!has_useful_content("a\nb\nc\n"));
    assert!(has_useful_content("a\nb\nc\nd\n"));
    assert!(!has_useful_content("% a\n# b\n\n  \nc\n"));
}

#[test]
fn whois_constants_and_client() {
    assert_eq!(WHOIS_PORT, 43);
    assert_eq!(MAX_RESPONSE_BYTES, 512 * 1024);
    assert_eq!(WhoisClient::new(1500).timeout_ms, 1500);
}
