use atlasip::models::IpRecord;
use atlasip::whois::enrichment::{enrich_from_whois_raw, fill_opt, parse_extras};

fn make_record() -> IpRecord {
    IpRecord::new(1, "8.8.8.8")
}


#[test]
fn test_rdap_wins_all_fields_already_set() {
    let mut rec = make_record();
    rec.country    = Some("US".into());
    rec.address    = Some("1600 Amphitheatre Pkwy, Mountain View, CA".into());
    rec.phone      = Some("+1-650-253-0000".into());
    rec.fax        = Some("+1-650-253-0001".into());
    rec.owner_name = Some("Google LLC".into());
    rec.allocated  = Some("2020-01-01T00:00:00Z".into());

    let whois_raw = "\
country: NL
address: Some Other Street
phone: +31205354444
fax-no: +31205354445
orgname: RIPE NCC
created: 2003-03-17T12:15:57Z
remarks: Do not overwrite
";
    enrich_from_whois_raw(&mut rec, whois_raw);

    // RDAP values must be unchanged.
    assert_eq!(rec.country.as_deref(),    Some("US"));
    assert_eq!(rec.phone.as_deref(),      Some("+1-650-253-0000"));
    assert_eq!(rec.fax.as_deref(),        Some("+1-650-253-0001"));
    assert_eq!(rec.owner_name.as_deref(), Some("Google LLC"));
    assert_eq!(rec.allocated.as_deref(),  Some("2020-01-01T00:00:00Z"));
    assert!(rec.address.as_deref().unwrap().contains("1600 Amphitheatre"));

    // No enrichment flags must be set (RDAP provided everything).
    assert!(!rec.country_enriched);
    assert!(!rec.address_enriched);
    assert!(!rec.phone_enriched);
    assert!(!rec.fax_enriched);
    assert!(!rec.owner_enriched);
    assert!(!rec.dates_enriched);
    // Remarks was None → gets enriched.
    assert!(rec.remarks_enriched);
    assert!(rec.remarks.is_some());
}


#[test]
fn test_rdap_poor_whois_rich_fills_gaps() {
    let mut rec = make_record();
    // Simulate a minimal RDAP result: only owner_name known.
    rec.owner_name = Some("Google LLC".into());

    let whois_raw = "\
# ARIN WHOIS
NetRange:       8.8.8.0 - 8.8.8.255
CIDR:           8.8.8.0/24
NetName:        GOGL
Country:        US
Address:        1600 Amphitheatre Parkway
City:           Mountain View
StateProv:      CA
PostalCode:     94043
OrgAbusePhone:  +1-650-253-0000
RegDate:        2023-12-28
Updated:        2024-01-15
";
    enrich_from_whois_raw(&mut rec, whois_raw);

    // WHOIS filled the gaps.
    assert_eq!(rec.country.as_deref(), Some("US"));
    assert!(rec.address.as_deref().unwrap().contains("1600 Amphitheatre"));
    assert_eq!(rec.phone.as_deref(), Some("+1-650-253-0000"));
    assert_eq!(rec.cidr.as_deref(), Some("8.8.8.0/24"));
    assert_eq!(rec.postal_code.as_deref(), Some("94043"));
    assert!(rec.allocated.is_some());
    assert!(rec.updated_at.is_some());

    // Enrichment flags set correctly.
    assert!(rec.country_enriched);
    assert!(rec.address_enriched);
    assert!(rec.phone_enriched);
    assert!(rec.dates_enriched);

    // owner_name came from RDAP → not enriched.
    assert!(!rec.owner_enriched);
    assert_eq!(rec.owner_name.as_deref(), Some("Google LLC"));
}


#[test]
fn test_rdap_poor_whois_poor_fields_remain_none() {
    let mut rec = make_record();

    enrich_from_whois_raw(&mut rec, "% No objects found.\n");

    assert!(rec.country.is_none());
    assert!(rec.address.is_none());
    assert!(rec.phone.is_none());
    assert!(rec.fax.is_none());
    assert!(!rec.country_enriched);
    assert!(!rec.address_enriched);
}


#[test]
fn test_address_multiline_whois() {
    let mut rec = make_record();
    let raw = "\
address: P.O. Box 10096
address: 1001 EB
address: Amsterdam
address: NETHERLANDS
";
    enrich_from_whois_raw(&mut rec, raw);
    let addr = rec.address.unwrap();
    assert!(addr.contains("P.O. Box 10096"));
    assert!(addr.contains("Amsterdam"));
    assert!(rec.address_enriched);
}

#[test]
fn test_address_not_set_when_whois_has_none() {
    let mut rec = make_record();
    enrich_from_whois_raw(&mut rec, "netname: TEST\ncountry: US\n");
    assert!(rec.address.is_none());
    assert!(!rec.address_enriched);
}

#[test]
fn test_address_partial_arin() {
    let mut rec = make_record();
    // Partial: only City + Country, no street.
    let raw = "City: Mountain View\nCountry: US\n";
    enrich_from_whois_raw(&mut rec, raw);
    // ARIN path: city present → address built from available components.
    assert!(rec.address.is_some());
    assert!(rec.address_enriched);
}


#[test]
fn test_phone_multiple_sources() {
    let mut rec = make_record();
    // OrgTechPhone takes first match, OrgAbusePhone is ignored.
    let raw = "OrgTechPhone: +1-800-123-4567\nOrgAbusePhone: +1-800-999-0000\n";
    enrich_from_whois_raw(&mut rec, raw);
    assert_eq!(rec.phone.as_deref(), Some("+1-800-123-4567"));
    assert!(rec.phone_enriched);
}

#[test]
fn test_phone_not_enriched_when_whois_has_none() {
    let mut rec = make_record();
    enrich_from_whois_raw(&mut rec, "netname: TEST\n");
    assert!(rec.phone.is_none());
    assert!(!rec.phone_enriched);
}

#[test]
fn test_fax_exotic_format() {
    let mut rec = make_record();
    enrich_from_whois_raw(&mut rec, "fax-no: +55 11 5509-3501 ext 42\n");
    assert_eq!(rec.fax.as_deref(), Some("+55 11 5509-3501 ext 42"));
    assert!(rec.fax_enriched);
}


#[test]
fn test_country_rdap_wins_over_whois() {
    let mut rec = make_record();
    rec.country = Some("US".into());

    enrich_from_whois_raw(&mut rec, "Country: NL\n");

    assert_eq!(rec.country.as_deref(), Some("US"));
    assert!(!rec.country_enriched);
}

#[test]
fn test_country_filled_from_whois_when_rdap_empty() {
    let mut rec = make_record();
    enrich_from_whois_raw(&mut rec, "Country: BR\n");
    assert_eq!(rec.country.as_deref(), Some("BR"));
    assert!(rec.country_enriched);
}

#[test]
fn test_country_ctry_fallback() {
    let mut rec = make_record();
    // `Ctry:` is used when `Country:` is absent.
    enrich_from_whois_raw(&mut rec, "Ctry: JP\n");
    assert_eq!(rec.country.as_deref(), Some("JP"));
    assert!(rec.country_enriched);
}


#[test]
fn test_enriched_flag_true_only_when_whois_filled() {
    let mut rec = make_record();
    // No RDAP data at all → all fields open for enrichment.
    let raw = "\
Country: DE
phone: +49 30 1234567
fax-no: +49 30 1234568
orgname: Deutsche Telekom
address: Telekom Allee 1
address: 53113 Bonn
address: Germany
created: 2000-01-01
updated: 2023-06-15
remarks: Test remark
";
    enrich_from_whois_raw(&mut rec, raw);
    assert!(rec.country_enriched);
    assert!(rec.phone_enriched);
    assert!(rec.fax_enriched);
    assert!(rec.owner_enriched);
    assert!(rec.address_enriched);
    assert!(rec.dates_enriched);
    assert!(rec.remarks_enriched);
}

#[test]
fn test_enriched_flag_false_when_rdap_provided() {
    let mut rec = make_record();
    rec.country    = Some("DE".into());
    rec.phone      = Some("+49 30 000".into());
    rec.fax        = Some("+49 30 001".into());
    rec.owner_name = Some("Deutsche Telekom".into());
    rec.address    = Some("Telekom Allee 1".into());
    rec.allocated  = Some("2000-01-01T00:00:00Z".into());

    enrich_from_whois_raw(&mut rec, "Country: US\nphone: +1-650-253-0000\n");

    assert!(!rec.country_enriched);
    assert!(!rec.phone_enriched);
    assert!(!rec.fax_enriched);
    assert!(!rec.owner_enriched);
    assert!(!rec.address_enriched);
    assert!(!rec.dates_enriched);
}


#[test]
fn test_remarks_multiple_lines_joined() {
    let mut rec = make_record();
    let raw = "remarks: Line one\nremarks: Line two\ncomment: Also a comment\n";
    enrich_from_whois_raw(&mut rec, raw);
    let r = rec.remarks.unwrap();
    assert!(r.contains("Line one"));
    assert!(r.contains("Line two"));
    assert!(r.contains("Also a comment"));
    assert!(rec.remarks_enriched);
}


#[test]
fn test_dates_allocated_and_updated_at() {
    let mut rec = make_record();
    enrich_from_whois_raw(
        &mut rec,
        "RegDate: 2010-05-20\nUpdated: 2023-11-01\n",
    );
    assert_eq!(rec.allocated.as_deref(), Some("2010-05-20T00:00:00Z"));
    assert_eq!(rec.updated_at.as_deref(), Some("2023-11-01T00:00:00Z"));
    assert!(rec.dates_enriched);
}

#[test]
fn test_dates_not_set_when_whois_has_none() {
    let mut rec = make_record();
    enrich_from_whois_raw(&mut rec, "netname: TEST\n");
    assert!(rec.allocated.is_none());
    assert!(rec.updated_at.is_none());
    assert!(!rec.dates_enriched);
}

#[test]
fn parse_extras_reads_remarks_dates_and_ctry() {
    let x = parse_extras("remarks: a\nnote: b\nchanged: 2001-02-03\nupdated: 2002-02-02\nCtry: FR\nctry: DE\n% remarks: c\n");
    assert_eq!(x.remarks.as_deref(), Some("a | b"));
    assert_eq!(x.updated_at.as_deref(), Some("2001-02-03T00:00:00Z"));
    assert_eq!(x.ctry.as_deref(), Some("FR"));
}

#[test]
fn fill_opt_keeps_present_value() {
    let mut d = Some("x".to_string());
    fill_opt(&mut d, Some("y".to_string()));
    assert_eq!(d.as_deref(), Some("x"));
    let mut e: Option<String> = None;
    fill_opt(&mut e, Some("y".to_string()));
    assert_eq!(e.as_deref(), Some("y"));
}

#[test]
fn enrichment_twice_changes_nothing_more() {
    let mut rec = IpRecord::new(1, "8.8.8.8");
    let raw = "Country: DE\nphone: +49 1\nremarks: r\ncreated: 2000-01-01\n";
    enrich_from_whois_raw(&mut rec, raw);
    let once = (rec.country.clone(), rec.phone.clone(), rec.remarks.clone(), rec.allocated.clone());
    enrich_from_whois_raw(&mut rec, raw);
    assert_eq!(once, (rec.country.clone(), rec.phone.clone(), rec.remarks.clone(), rec.allocated.clone()));
    assert_eq!(rec.allocated.as_deref(), Some("2000-01-01T00:00:00Z"));
}

#[test]
fn emails_taken_only_when_record_has_none() {
    let mut rec = IpRecord::new(1, "8.8.8.8");
    rec.emails = vec!["rdap@x".to_string()];
    enrich_from_whois_raw(&mut rec, "OrgTechEmail: whois@x\nOrgAbuseEmail: abuse@x\n");
    assert_eq!(rec.emails, vec!["rdap@x".to_string()]);
    assert_eq!(rec.abuse_emails, vec!["abuse@x".to_string()]);
}
