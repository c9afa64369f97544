use atlasip::json::Json;
use atlasip::rdap::{extract_cidr, extract_country_from_vcard, extract_event_date, format_adr, RdapClient};

fn t(v: &str) -> Json {
    Json::String(v.to_string())
}

fn n(v: u64) -> Json {
    Json::Number(v.to_string())
}

fn o(members: Vec<(&str, Json)>) -> Json {
    Json::Object(members.into_iter().map(|(k, v)| (k.to_string(), v)).collect())
}

fn a(items: Vec<Json>) -> Json {
    Json::Array(items)
}

/// A vCard property `[name, params, "text", value]`.
fn prop(name: &str, params: Json, value: Json) -> Json {
    a(vec![t(name), params, t("text"), value])
}

fn vcard(props: Vec<Json>) -> Json {
    let mut all = vec![prop("version", o(vec![]), t("4.0"))];
    all.extend(props);
    a(vec![t("vcard"), a(all)])
}

fn entity(role: &str, props: Vec<Json>) -> Json {
    o(vec![("roles", a(vec![t(role)])), ("vcardArray", vcard(props))])
}

fn adr(parts: &[&str]) -> Json {
    a(parts.iter().map(|p| t(p)).collect())
}

#[test]
fn test_extract_cidr_from_cidr0() {
    let json = o(vec![(
        "cidr0_cidrs",
        a(vec![o(vec![("v4prefix", t("8.8.8.0")), ("length", n(24))]), o(vec![("v4prefix", t("8.8.4.0")), ("length", n(24))])]),
    )]);
    assert_eq!(extract_cidr(&json).unwrap(), "8.8.8.0/24, 8.8.4.0/24");
}

#[test]
fn test_extract_cidr_missing_returns_none() {
    let json = o(vec![("name", t("TEST-NET"))]);
    assert!(extract_cidr(&json).is_none());
}

#[test]
fn extract_cidr_v6_and_skips_entries_without_length() {
    let json = o(vec![("cidr0_cidrs", a(vec![o(vec![("v6prefix", t("2001:db8::")), ("length", n(32))]), o(vec![("v4prefix", t("1.0.0.0"))])]))]);
    assert_eq!(extract_cidr(&json).unwrap(), "2001:db8::/32");
}

#[test]
fn test_extract_event_date() {
    let json = o(vec![(
        "events",
        a(vec![
            o(vec![("eventAction", t("last changed")), ("eventDate", t("2020-01-01T00:00:00Z"))]),
            o(vec![("eventAction", t("registration")), ("eventDate", t("1992-04-30T00:00:00Z"))]),
        ]),
    )]);
    assert_eq!(extract_event_date(&json, "registration").unwrap(), "1992-04-30T00:00:00Z");
    assert_eq!(extract_event_date(&json, "last changed").unwrap(), "2020-01-01T00:00:00Z");
    assert!(extract_event_date(&json, "expiration").is_none());
}

#[test]
fn test_parse_full_rdap_response() {
    let json = o(vec![
        ("objectClassName", t("ip network")),
        ("handle", t("NET-8-8-8-0-1")),
        ("name", t("LVLT-GOGL-8-8-8")),
        ("country", t("US")),
        ("startAddress", t("8.8.8.0")),
        ("endAddress", t("8.8.8.255")),
        ("cidr0_cidrs", a(vec![o(vec![("v4prefix", t("8.8.8.0")), ("length", n(24))])])),
        ("status", a(vec![t("active")])),
        ("events", a(vec![o(vec![("eventAction", t("registration")), ("eventDate", t("2014-03-14T00:00:00Z"))])])),
        (
            "entities",
            a(vec![
                entity(
                    "registrant",
                    vec![
                        prop("fn", o(vec![]), t("Google LLC")),
                        prop(
                            "adr",
                            o(vec![("label", t("1600 Amphitheatre Pkwy\nMountain View\nCA 94043\nUnited States"))]),
                            adr(&["", "", "1600 Amphitheatre Pkwy", "Mountain View", "CA", "94043", "US"]),
                        ),
                        prop("email", o(vec![]), t("arin-contact@google.com")),
                        prop("tel", o(vec![("type", t("voice"))]), t("+1-650-253-0000")),
                    ],
                ),
                entity(
                    "abuse",
                    vec![
                        prop("fn", o(vec![]), t("Google LLC - Abuse")),
                        prop("email", o(vec![]), t("network-abuse@google.com")),
                        prop("tel", o(vec![("type", t("voice"))]), t("+1-650-253-0000")),
                    ],
                ),
            ]),
        ),
    ]);

    let p = RdapClient::parse(&json);
    assert_eq!(p.country.as_deref(), Some("US"));
    assert_eq!(p.network_name.as_deref(), Some("LVLT-GOGL-8-8-8"));
    assert_eq!(p.from_ip.as_deref(), Some("8.8.8.0"));
    assert_eq!(p.to_ip.as_deref(), Some("8.8.8.255"));
    assert_eq!(p.cidr.as_deref(), Some("8.8.8.0/24"));
    assert_eq!(p.status.as_deref(), Some("active"));
    assert_eq!(p.allocated.as_deref(), Some("2014-03-14T00:00:00Z"));
    assert_eq!(p.owner_name.as_deref(), Some("Google LLC"));
    assert_eq!(p.address.as_deref(), Some("1600 Amphitheatre Pkwy, Mountain View, CA, 94043, US"));
    assert_eq!(p.postal_code.as_deref(), Some("94043"));
    assert!(p.emails.contains(&"arin-contact@google.com".to_owned()));
    assert_eq!(p.phone.as_deref(), Some("+1-650-253-0000"));
    assert!(p.abuse_emails.contains(&"network-abuse@google.com".to_owned()));
    assert_eq!(p.abuse_contact.as_deref(), Some("Google LLC - Abuse"));
}

#[test]
fn test_parse_org_role_entity() {
    let json = o(vec![
        ("objectClassName", t("ip network")),
        ("name", t("APNIC-NET")),
        ("country", t("AU")),
        ("startAddress", t("1.1.1.0")),
        ("endAddress", t("1.1.1.255")),
        ("cidr0_cidrs", a(vec![o(vec![("v4prefix", t("1.1.1.0")), ("length", n(24))])])),
        ("status", a(vec![t("active")])),
        ("events", a(vec![o(vec![("eventAction", t("registration")), ("eventDate", t("2011-08-11"))])])),
        (
            "entities",
            a(vec![
                entity(
                    "org",
                    vec![
                        prop("fn", o(vec![]), t("APNIC Pty Ltd")),
                        prop("adr", o(vec![]), adr(&["", "", "6 Cordelia St", "South Brisbane", "QLD", "4101", "AU"])),
                        prop("email", o(vec![]), t("helpdesk@apnic.net")),
                    ],
                ),
                entity(
                    "abuse",
                    vec![prop("fn", o(vec![]), t("IRT-APNICRANDNET-AU")), prop("email", o(vec![]), t("abuse@apnic.net"))],
                ),
            ]),
        ),
    ]);

    let p = RdapClient::parse(&json);
    assert_eq!(p.country.as_deref(), Some("AU"));
    assert_eq!(p.owner_name.as_deref(), Some("APNIC Pty Ltd"));
    assert!(p.emails.contains(&"helpdesk@apnic.net".to_owned()));
    assert!(p.abuse_emails.contains(&"abuse@apnic.net".to_owned()));
    assert_eq!(p.abuse_contact.as_deref(), Some("IRT-APNICRANDNET-AU"));
    assert_eq!(p.allocated.as_deref(), Some("2011-08-11T00:00:00Z"));
}

#[test]
fn test_parse_date_already_iso8601() {
    let json = o(vec![
        ("events", a(vec![o(vec![("eventAction", t("registration")), ("eventDate", t("1992-04-30T00:00:00Z"))])])),
        ("entities", a(vec![])),
    ]);
    let p = RdapClient::parse(&json);
    assert_eq!(p.allocated.as_deref(), Some("1992-04-30T00:00:00Z"));
}

#[test]
fn test_registrant_wins_over_org() {
    let json = o(vec![(
        "entities",
        a(vec![
            entity("registrant", vec![prop("fn", o(vec![]), t("Registrant Name")), prop("email", o(vec![]), t("reg@example.com"))]),
            entity("org", vec![prop("fn", o(vec![]), t("Org Name")), prop("email", o(vec![]), t("org@example.com"))]),
        ]),
    )]);
    let p = RdapClient::parse(&json);
    assert_eq!(p.owner_name.as_deref(), Some("Registrant Name"));
}

#[test]
fn test_org_only_entity_fills_owner_name() {
    let json = o(vec![(
        "entities",
        a(vec![entity("org", vec![prop("fn", o(vec![]), t("APNIC Pty Ltd")), prop("email", o(vec![]), t("helpdesk@apnic.net"))])]),
    )]);
    let p = RdapClient::parse(&json);
    assert_eq!(p.owner_name.as_deref(), Some("APNIC Pty Ltd"));
}

#[test]
fn parse_of_empty_object_is_empty() {
    let p = RdapClient::parse(&o(vec![]));
    assert!(p.country.is_none());
    assert!(p.owner_name.is_none());
    assert!(p.emails.is_empty());
    assert!(p.cidr.is_none());
}

#[test]
fn format_adr_joins_non_empty_parts() {
    let (addr, postal) = format_adr(&adr(&["", "", "6 Cordelia St", "South Brisbane", "QLD", "4101", "AU"]));
    assert_eq!(addr.as_deref(), Some("6 Cordelia St, South Brisbane, QLD, 4101, AU"));
    assert_eq!(postal.as_deref(), Some("4101"));
    let (addr, postal) = format_adr(&t(" 1 Main St\nTown "));
    assert_eq!(addr.as_deref(), Some("1 Main St, Town"));
    assert!(postal.is_none());
    let (addr, postal) = format_adr(&Json::Null);
    assert!(addr.is_none() && postal.is_none());
}

#[test]
fn country_from_vcard_adr() {
    let e = entity("org", vec![prop("adr", o(vec![]), adr(&["", "", "Street", "Town", "", "", "NZ"]))]);
    assert_eq!(extract_country_from_vcard(&e).as_deref(), Some("NZ"));
    let e = entity("org", vec![prop("fn", o(vec![]), t("x"))]);
    assert!(extract_country_from_vcard(&e).is_none());
}

#[test]
fn rdap_client_timeout() {
    assert_eq!(RdapClient::new(2500).timeout_secs(), 3);
    assert_eq!(RdapClient::new(3000).timeout_secs(), 3);
    assert_eq!(RdapClient::new(0).timeout_secs(), 1);
}
