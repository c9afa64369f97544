use atlasip::bgp::{parse_announced_prefixes, parse_holder, parse_neighbours, parse_prefix_overview, split_prefixes, BgpError};
use atlasip::json::Json;
use atlasip::models::{BgpInfo, BgpPeer};

fn jtext(v: &str) -> Json {
    Json::String(v.to_string())
}

fn num(v: u64) -> Json {
    Json::Number(v.to_string())
}

fn jobj(members: Vec<(&str, Json)>) -> Json {
    Json::Object(members.into_iter().map(|(k, v)| (k.to_string(), v)).collect())
}

fn prefix(p: &str) -> Json {
    jobj(vec![("prefix", jtext(p))])
}

// ── parse_holder ─────────────────────────────────────────────────────────

#[test]
fn test_parse_holder_full_format() {
    let (name, country) = parse_holder(Some("GOOGLE - Google LLC, US"));
    assert_eq!(name.as_deref(), Some("GOOGLE"));
    assert_eq!(country.as_deref(), Some("US"));
}

#[test]
fn test_parse_holder_no_dash() {
    let (name, country) = parse_holder(Some("TELIANET, SE"));
    assert_eq!(name.as_deref(), Some("TELIANET"));
    assert_eq!(country.as_deref(), Some("SE"));
}

#[test]
fn test_parse_holder_no_country() {
    let (name, country) = parse_holder(Some("CERN - European Organization for Nuclear Research"));
    assert_eq!(name.as_deref(), Some("CERN"));
    assert!(country.is_none(), "no country code should be extracted");
}

#[test]
fn test_parse_holder_none() {
    let (name, country) = parse_holder(None);
    assert!(name.is_none());
    assert!(country.is_none());
}

#[test]
fn test_parse_holder_three_letter_country() {
    let (name, country) = parse_holder(Some("TEST-AS - Test ISP, EUR"));
    assert_eq!(name.as_deref(), Some("TEST-AS"));
    assert_eq!(country.as_deref(), Some("EUR"));
}

#[test]
fn parse_holder_lower_case_tail_is_no_country() {
    let (name, country) = parse_holder(Some("EXAMPLE - Example Net, us"));
    assert_eq!(name.as_deref(), Some("EXAMPLE"));
    assert!(country.is_none());
}

#[test]
fn parse_holder_non_ascii_upper_case_counts_as_country() {
    // `char::is_uppercase` holds of `É`; two characters, three bytes.
    let (_, country) = parse_holder(Some("X, ÉU"));
    assert_eq!(country.as_deref(), Some("ÉU"));
}

// ── split_prefixes ───────────────────────────────────────────────────────

#[test]
fn test_split_prefixes_none_input() {
    let (v4, v6) = split_prefixes(None);
    assert!(v4.is_empty());
    assert!(v6.is_empty());
}

#[test]
fn test_split_prefixes_empty_array() {
    let arr: Vec<Json> = vec![];
    let (v4, v6) = split_prefixes(Some(&arr));
    assert!(v4.is_empty());
    assert!(v6.is_empty());
}

#[test]
fn test_split_prefixes_v4_only() {
    let arr = vec![prefix("8.8.8.0/24"), prefix("8.8.4.0/24")];
    let (v4, v6) = split_prefixes(Some(&arr));
    assert_eq!(v4, vec!["8.8.8.0/24", "8.8.4.0/24"]);
    assert!(v6.is_empty());
}

#[test]
fn test_split_prefixes_v6_only() {
    let arr = vec![prefix("2001:4860::/32"), prefix("2404:6800::/32")];
    let (v4, v6) = split_prefixes(Some(&arr));
    assert!(v4.is_empty());
    assert_eq!(v6, vec!["2001:4860::/32", "2404:6800::/32"]);
}

#[test]
fn test_split_prefixes_mixed() {
    let arr = vec![prefix("8.8.8.0/24"), prefix("2001:4860::/32"), prefix("1.2.3.0/24")];
    let (v4, v6) = split_prefixes(Some(&arr));
    assert_eq!(v4.len(), 2);
    assert_eq!(v6.len(), 1);
    assert!(v4.contains(&"8.8.8.0/24".to_owned()));
    assert!(v6.contains(&"2001:4860::/32".to_owned()));
}

#[test]
fn test_split_prefixes_skips_missing_field() {
    let arr = vec![jobj(vec![("ip", jtext("8.8.8.0"))]), prefix("8.8.8.0/24")];
    let (v4, _) = split_prefixes(Some(&arr));
    assert_eq!(v4, vec!["8.8.8.0/24"]);
}

// ── BgpInfo / BgpPeer data model ─────────────────────────────────────────

#[test]
fn test_bgp_info_default_is_empty() {
    let info = BgpInfo::default();
    assert!(info.asn.is_none());
    assert!(info.as_name.is_none());
    assert!(info.as_country.is_none());
    assert!(info.prefixes_v4.is_empty());
    assert!(info.prefixes_v6.is_empty());
    assert!(info.peers.is_empty());
}

// ── RIPEstat response parsing ────────────────────────────────────────────

#[test]
fn test_parse_prefix_overview_extracts_asn() {
    let resp = jobj(vec![
        ("status", jtext("ok")),
        (
            "data",
            jobj(vec![
                ("prefix", jtext("8.8.8.0/24")),
                (
                    "asns",
                    Json::Array(vec![jobj(vec![("asn", num(15169)), ("holder", jtext("GOOGLE - Google LLC, US"))])]),
                ),
            ]),
        ),
    ]);
    let (asn, info) = match parse_prefix_overview(&resp) {
        Ok(v) => v,
        Err(_) => panic!("status is ok"),
    };
    assert_eq!(asn, Some(15169));
    assert_eq!(info.asn, Some(15169));
    assert_eq!(info.as_name.as_deref(), Some("GOOGLE"));
    assert_eq!(info.as_country.as_deref(), Some("US"));
    assert_eq!(info.prefixes_v4, vec!["8.8.8.0/24"]);
    assert!(info.prefixes_v6.is_empty());
}

#[test]
fn test_parse_prefix_overview_no_asns() {
    let resp = jobj(vec![("status", jtext("ok")), ("data", jobj(vec![("asns", Json::Array(vec![]))]))]);
    let (asn, info) = match parse_prefix_overview(&resp) {
        Ok(v) => v,
        Err(_) => panic!("status is ok"),
    };
    assert!(asn.is_none());
    assert!(info.asn.is_none());
    assert!(info.as_name.is_none());
}

#[test]
fn parse_prefix_overview_refuses_error_status() {
    let resp = jobj(vec![("status", jtext("error"))]);
    assert!(matches!(parse_prefix_overview(&resp), Err(BgpError::NonOkStatus(_))));
}

#[test]
fn test_parse_neighbours_deduplicates() {
    let resp = jobj(vec![
        ("status", jtext("ok")),
        (
            "data",
            jobj(vec![(
                "neighbours",
                Json::Array(vec![
                    jobj(vec![("asn", num(1234)), ("type", jtext("left"))]),
                    jobj(vec![("asn", num(5678)), ("type", jtext("right"))]),
                    jobj(vec![("asn", num(1234)), ("type", jtext("uncertain"))]),
                ]),
            )]),
        ),
    ]);
    let peers: Vec<BgpPeer> = match parse_neighbours(&resp) {
        Ok(p) => p,
        Err(_) => panic!("status is ok"),
    };
    assert_eq!(peers.len(), 2, "duplicate ASN 1234 must be deduped");
    assert_eq!(peers[0].asn, 1234);
    assert_eq!(peers[1].asn, 5678);
    assert!(peers[0].name.is_none());
}

#[test]
fn parse_announced_prefixes_splits_families() {
    let resp = jobj(vec![
        ("status", jtext("ok")),
        ("data", jobj(vec![("prefixes", Json::Array(vec![prefix("1.2.3.0/24"), prefix("2001:db8::/32")]))])),
    ]);
    let (v4, v6) = match parse_announced_prefixes(&resp) {
        Ok(v) => v,
        Err(_) => panic!("status is ok"),
    };
    assert_eq!(v4, vec!["1.2.3.0/24"]);
    assert_eq!(v6, vec!["2001:db8::/32"]);
}
