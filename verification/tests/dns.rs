use atlasip::dns::{
    assemble_records, disabled_lookup, dot_provider, doh_dnssec_url, doh_ptr, doh_ptr_url, first_address, reverse_plan, sort_records,
    trim_trailing_dots, DnsMode, DotProvider, ReverseVia,
};
use atlasip::models::DnsRecord;

fn rec(t: &str, v: &str) -> DnsRecord {
    DnsRecord { record_type: t.to_string(), value: v.to_string(), ttl: 60, dnssec_validated: false }
}

#[test]
fn reverse_plan_per_mode() {
    assert_eq!(reverse_plan(&DnsMode::Disabled), (None, None));
    assert_eq!(reverse_plan(&DnsMode::SystemOnly), (Some(ReverseVia::System), None));
    assert_eq!(reverse_plan(&DnsMode::DohOnly), (Some(ReverseVia::Doh), None));
    assert_eq!(reverse_plan(&DnsMode::DotOnly), (Some(ReverseVia::Dot), None));
    assert_eq!(reverse_plan(&DnsMode::Automatic), (Some(ReverseVia::System), Some(ReverseVia::Doh)));
}

#[test]
fn dot_providers() {
    assert_eq!(dot_provider("google"), DotProvider::Google);
    assert_eq!(dot_provider("quad9"), DotProvider::Quad9);
    assert_eq!(dot_provider("cloudflare"), DotProvider::Cloudflare);
    assert_eq!(dot_provider("anything"), DotProvider::Cloudflare);
}

#[test]
fn ptr_answer_loses_trailing_dots() {
    assert_eq!(trim_trailing_dots("dns.google."), "dns.google");
    assert_eq!(trim_trailing_dots("a..."), "a");
    assert_eq!(doh_ptr(Some(vec!["dns.google.".to_string(), "other.".to_string()])).as_deref(), Some("dns.google"));
    assert_eq!(doh_ptr(Some(vec![".".to_string()])), None);
    assert_eq!(doh_ptr(Some(vec![])), None);
    assert_eq!(doh_ptr(None), None);
}

#[test]
fn doh_urls() {
    assert_eq!(
        doh_ptr_url("https://cloudflare-dns.com/dns-query", "8.8.8.8.in-addr.arpa"),
        "https://cloudflare-dns.com/dns-query?name=8.8.8.8.in-addr.arpa&type=PTR"
    );
    assert_eq!(doh_dnssec_url("https://d/q", "example.com"), "https://d/q?name=example.com&type=A&do=1");
}

#[test]
fn sort_records_orders_by_type() {
    let input = vec![rec("TXT", "t"), rec("MX", "m"), rec("A", "1.1.1.1"), rec("NS", "n"), rec("AAAA", "::1"), rec("SOA", "s"), rec("CNAME", "c"), rec("A", "2.2.2.2")];
    let out = sort_records(&input);
    let types: Vec<&str> = out.iter().map(|r| r.record_type.as_str()).collect();
    assert_eq!(types, vec!["A", "A", "AAAA", "CNAME", "MX", "NS", "SOA", "TXT"]);
    assert_eq!(out[0].value, "1.1.1.1", "stable within a type");
    assert_eq!(out[1].value, "2.2.2.2");
}

#[test]
fn assembled_records_are_sorted_and_stamped() {
    let groups = vec![vec![rec("MX", "m")], vec![rec("A", "1.2.3.4")], vec![]];
    let out = assemble_records(groups, true);
    assert_eq!(out.len(), 2);
    assert_eq!(out[0].record_type, "A");
    assert!(out.iter().all(|r| r.dnssec_validated));
    assert_eq!(first_address(&out).as_deref(), Some("1.2.3.4"));
}

#[test]
fn first_address_takes_a_then_aaaa() {
    assert_eq!(first_address(&vec![rec("MX", "m"), rec("AAAA", "::1"), rec("A", "9.9.9.9")]).as_deref(), Some("::1"));
    assert_eq!(first_address(&vec![rec("MX", "m")]), None);
}

#[test]
fn disabled_mode_answers_empty_without_queries() {
    let r = disabled_lookup(&DnsMode::Disabled).expect("disabled mode answers at once");
    assert!(r.resolved_ip.is_none());
    assert!(r.ptr.is_none());
    assert!(r.records.is_empty());
    assert!(r.errors.is_empty());
    assert!(disabled_lookup(&DnsMode::SystemOnly).is_none());
    assert!(disabled_lookup(&DnsMode::Automatic).is_none());
}
