use atlasip::bgp::complete_bgp;
use atlasip::geoip::GeoRecord;
use atlasip::json::Json;
use atlasip::lookup::{
    apply_ptr_outcome, extend_unique, filter_by_ids, merge_sources, push_record, serve_cached, sort_by_order_exec, store_results,
    MAX_SESSION_RECORDS,
};
use atlasip::models::{BgpInfo, BgpPeer, IpRecord};
use atlasip::rdap::RdapResult;
use atlasip::whois::client::WhoisResult;

fn lobj(members: Vec<(&str, Json)>) -> Json {
    Json::Object(members.into_iter().map(|(k, v)| (k.to_string(), v)).collect())
}

#[test]
fn extend_unique_adds_only_new_items() {
    let mut dest = vec!["a".to_string(), "b".to_string()];
    extend_unique(&mut dest, vec!["b".to_string(), "c".to_string(), "c".to_string(), "a".to_string()]);
    assert_eq!(dest, vec!["a", "b", "c"]);
}

#[test]
fn session_store_keeps_newest_records() {
    let mut store: Vec<IpRecord> = Vec::new();
    for i in 0..(MAX_SESSION_RECORDS as u32 + 5) {
        push_record(&mut store, IpRecord::with_id(i as u128, i, "1.1.1.1"));
    }
    assert_eq!(store.len(), MAX_SESSION_RECORDS);
    assert_eq!(store[0].order, 5);
    assert_eq!(store.last().unwrap().order, MAX_SESSION_RECORDS as u32 + 4);
}

#[test]
fn store_results_appends_in_order() {
    let mut store = vec![IpRecord::with_id(1, 1, "a")];
    store_results(&mut store, vec![IpRecord::with_id(2, 2, "b"), IpRecord::with_id(3, 3, "c")]);
    let orders: Vec<u32> = store.iter().map(|r| r.order).collect();
    assert_eq!(orders, vec![1, 2, 3]);
}

#[test]
fn test_lookup_bulk_deduplicates_and_sorts_by_order() {
    let out = sort_by_order_exec(vec![
        IpRecord::with_id(1, 3, "c"),
        IpRecord::with_id(2, 1, "a"),
        IpRecord::with_id(3, 2, "b"),
        IpRecord::with_id(4, 1, "a2"),
    ]);
    let ips: Vec<&str> = out.iter().map(|r| r.ip.as_str()).collect();
    assert_eq!(ips, vec!["a", "a2", "b", "c"]);
}

#[test]
fn filter_by_ids_keeps_listed_records() {
    let a = IpRecord::with_id(0x11, 1, "a");
    let b = IpRecord::with_id(0x22, 2, "b");
    let c = IpRecord::with_id(0x33, 3, "c");
    let ids = "00000000-0000-0000-0000-000000000033 , 00000000-0000-0000-0000-000000000011";
    let out = filter_by_ids(vec![a, b, c], ids);
    let ips: Vec<&str> = out.iter().map(|r| r.ip.as_str()).collect();
    assert_eq!(ips, vec!["a", "c"]);
    assert!(filter_by_ids(vec![IpRecord::with_id(1, 1, "x")], "nope").is_empty());
    let big = IpRecord::with_id(0x0123_4567_89ab_cdef_0123_4567_89ab_cdef, 1, "hex");
    let out = filter_by_ids(vec![big], "01234567-89ab-cdef-0123-456789abcdef");
    assert_eq!(out.len(), 1, "identifiers are written as hyphenated lower-case hex");
}

#[test]
fn ptr_outcome_fills_resolved_name_or_records_error() {
    let mut rec = IpRecord::new(1, "8.8.8.8");
    assert!(apply_ptr_outcome(&mut rec, "8.8.8.8", Ok(Some("dns.google".to_string()))));
    assert_eq!(rec.resolved_name.as_deref(), Some("dns.google"));
    assert_eq!(rec.ip, "8.8.8.8");
    let mut rec = IpRecord::new(1, "8.8.8.8");
    assert!(!apply_ptr_outcome(&mut rec, "8.8.8.8", Err("timeout".to_string())));
    assert_eq!(rec.lookup_errors, vec!["PTR: timeout".to_string()]);
}

#[test]
fn merge_prefers_rdap_and_falls_back_to_whois() {
    let rdap = RdapResult {
        json: lobj(vec![("country", Json::String("US".to_string())), ("name", Json::String("NET".to_string()))]),
        url: "https://rdap.example/ip/8.8.8.8".to_string(),
    };
    let whois = WhoisResult { raw: "Country: NL\nphone: +1 2\n".to_string(), server: "whois.example".to_string() };
    let mut rec = IpRecord::new(1, "8.8.8.8");
    let out = merge_sources(&mut rec, Ok(rdap), Ok(whois), None, None);
    assert!(out.rdap_ok);
    assert!(!out.fallback);
    assert!(out.cacheable);
    assert_eq!(rec.country.as_deref(), Some("US"));
    assert_eq!(rec.network_name.as_deref(), Some("NET"));
    assert_eq!(rec.phone.as_deref(), Some("+1 2"));
    assert!(rec.phone_enriched);
    assert!(!rec.country_enriched);
    assert!(rec.raw_whois.is_some());

    let whois = WhoisResult { raw: "Country: NL\n".to_string(), server: "whois.example".to_string() };
    let mut rec = IpRecord::new(2, "1.1.1.1");
    let out = merge_sources(&mut rec, Err("rdap down".to_string()), Ok(whois), None, None);
    assert!(!out.rdap_ok);
    assert!(out.fallback);
    assert!(out.cacheable);
    assert_eq!(rec.country.as_deref(), Some("NL"));
    assert_eq!(rec.whois_source.as_deref(), Some("whois.example"));

    let mut rec = IpRecord::new(3, "1.1.1.1");
    let out = merge_sources(&mut rec, Err("a".to_string()), Err("b".to_string()), None, None);
    assert!(!out.cacheable);
    assert_eq!(rec.lookup_errors.len(), 2);
}

#[test]
fn merge_takes_bgp_and_geo() {
    let info = BgpInfo { asn: Some(15169), as_name: Some("GOOGLE".into()), as_country: None, prefixes_v4: vec![], prefixes_v6: vec![], peers: vec![] };
    let full = complete_bgp(info, Some((vec!["8.8.8.0/24".into()], vec![])), Some(vec![BgpPeer { asn: 1, name: None, country: None }]));
    assert_eq!(full.prefixes_v4, vec!["8.8.8.0/24"]);
    assert_eq!(full.peers.len(), 1);
    let geo = GeoRecord { lat_bits: 1.5f64.to_bits(), lon_bits: (-2.0f64).to_bits(), city: Some("Town".into()), country: Some("US".into()) };
    let mut rec = IpRecord::new(1, "8.8.8.8");
    merge_sources(&mut rec, Err("x".into()), Err("y".into()), Some(full), Some(geo));
    assert_eq!(rec.bgp.as_ref().unwrap().asn, Some(15169));
    assert_eq!(rec.geo_lat_bits.map(f64::from_bits), Some(1.5));
    assert_eq!(rec.geo_city.as_deref(), Some("Town"));
}

#[test]
fn cached_record_takes_the_new_order() {
    let mut stored = IpRecord::with_id(7, 3, "8.8.8.8");
    stored.country = Some("US".to_string());
    let served = serve_cached(stored, 11);
    assert_eq!(served.order, 11);
    assert_eq!(served.id, 7);
    assert_eq!(served.ip, "8.8.8.8");
    assert_eq!(served.country.as_deref(), Some("US"));
}
