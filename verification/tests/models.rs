use atlasip::models::{IpRecord, COLUMNS, N_COLUMNS};

#[test]
fn test_new_defaults() {
    let rec = IpRecord::new(1, "8.8.8.8");
    assert_eq!(rec.ip, "8.8.8.8");
    assert_eq!(rec.order, 1);
    assert!(rec.country.is_none());
    assert!(rec.emails.is_empty());
    assert!(rec.lookup_errors.is_empty());
}

#[test]
fn test_to_row_length_matches_columns() {
    let rec = IpRecord::new(0, "1.1.1.1");
    assert_eq!(rec.to_row().len(), COLUMNS.len());
}

#[test]
fn test_to_row_values() {
    let mut rec = IpRecord::new(3, "1.1.1.1");
    rec.country = Some("AU".into());
    rec.emails = vec!["a@b.com".into(), "c@d.com".into()];
    let row = rec.to_row();
    assert_eq!(row[0], "3");
    assert_eq!(row[1], "1.1.1.1");
    assert_eq!(row[2], "AU");
    assert_eq!(row[5], "a@b.com; c@d.com");
}

#[test]
fn test_to_row_empty_optional() {
    let rec = IpRecord::new(0, "::1");
    let row = rec.to_row();
    assert!(row[2..].iter().all(|v| v.is_empty()));
}

#[test]
fn new_record_has_random_v4_identifier() {
    let a = IpRecord::new(1, "8.8.8.8");
    let b = IpRecord::new(1, "8.8.8.8");
    assert_eq!((a.id >> 76) & 0xf, 4, "version nibble");
    assert_eq!((a.id >> 62) & 0x3, 2, "RFC 4122 variant");
    assert_ne!(a.id, b.id);
}

#[test]
fn with_id_keeps_the_identifier() {
    let r = IpRecord::with_id(0xffff_0000_0000_4000_8000_0000_0000_0001, 2, "x");
    assert_eq!(r.id, 0xffff_0000_0000_4000_8000_0000_0000_0001);
    assert_eq!(r.order, 2);
    assert_eq!(r.ip, "x");
}

#[test]
fn column_table() {
    assert_eq!(N_COLUMNS, 21);
    assert_eq!(COLUMNS[0], "Order");
    assert_eq!(COLUMNS[1], "IP Address");
}

#[test]
fn to_row_joins_lists_and_numbers_order() {
    let mut rec = IpRecord::with_id(1, 42, "2001:db8::1");
    rec.abuse_emails = vec!["abuse@x".into()];
    rec.cidr = Some("2001:db8::/32".into());
    let row = rec.to_row();
    assert_eq!(row[0], "42");
    assert_eq!(row[6], "abuse@x");
    assert_eq!(row.len(), N_COLUMNS);
}
