use atlasip::export::{
    csv_quote, escape_html, escape_xml, col_to_xml_tag, export, export_content_type, ExportError, ExportFormat,
};
use atlasip::models::{IpRecord, COLUMNS};

fn make_record_a() -> IpRecord {
    let mut r = IpRecord::new(1, "8.8.8.8");
    r.country = Some("US".into());
    r.owner_name = Some("Google LLC".into());
    r.emails = vec!["dns-admin@google.com".into()];
    r.abuse_emails = vec!["abuse@google.com".into()];
    r.network_name = Some("GOOGLE".into());
    r.cidr = Some("8.8.8.0/24".into());
    r.raw_whois = Some("% ARIN WHOIS data\nnetname: GOOGLE".into());
    r
}

fn make_record_b() -> IpRecord {
    let mut r = IpRecord::new(2, "1.1.1.1");
    r.country = Some("AU".into());
    r.owner_name = Some("Cloudflare & Co <test>".into());
    r.raw_whois = Some("% APNIC WHOIS\nnetname: APNIC-LABS".into());
    r
}

#[test]
fn test_export_csv() {
    let records = vec![make_record_a()];
    let out = export(&records, ExportFormat::Csv, true).unwrap();
    let lines: Vec<&str> = out.lines().collect();
    assert_eq!(lines[0].split(',').count(), COLUMNS.len());
    assert!(lines[0].starts_with("Order,"));
    assert!(lines[1].starts_with("1,8.8.8.8,"));
}

#[test]
fn test_export_csv_no_header() {
    let records = vec![make_record_a()];
    let out = export(&records, ExportFormat::Csv, false).unwrap();
    let first = out.lines().next().unwrap();
    assert!(first.starts_with("1,"));
}

#[test]
fn test_export_csv_quotes() {
    let mut r = IpRecord::new(1, "1.2.3.4");
    r.address = Some("123 Main St, Suite 4".into());
    let out = export(&[r], ExportFormat::Csv, false).unwrap();
    assert!(out.contains("\"123 Main St, Suite 4\""));
}

#[test]
fn test_export_tsv() {
    let records = vec![make_record_a(), make_record_b()];
    let out = export(&records, ExportFormat::Tsv, true).unwrap();
    let lines: Vec<&str> = out.lines().collect();
    assert_eq!(lines.len(), 3);
    assert_eq!(lines[0].split('\t').count(), COLUMNS.len());
    assert!(lines[1].contains("8.8.8.8"));
    assert!(lines[2].contains("1.1.1.1"));
}

#[test]
fn test_export_txt_vertical() {
    let records = vec![make_record_a()];
    let out = export(&records, ExportFormat::Txt, true).unwrap();
    assert!(out.contains("IP Address: 8.8.8.8"));
    assert!(out.contains("Country: US"));
    assert!(out.contains("Owner Name: Google LLC"));
}

#[test]
fn test_export_txt_vertical_two_records() {
    let records = vec![make_record_a(), make_record_b()];
    let out = export(&records, ExportFormat::Txt, true).unwrap();
    assert!(out.contains("\n\n"));
    assert!(out.contains("8.8.8.8"));
    assert!(out.contains("1.1.1.1"));
}

#[test]
fn test_export_txt_horizontal() {
    let records = vec![make_record_a(), make_record_b()];
    let out = export(&records, ExportFormat::TxtHorizontal, true).unwrap();
    let lines: Vec<&str> = out.lines().collect();
    assert_eq!(lines.len(), 4);
    assert!(lines[0].contains("IP Address"));
    assert!(lines[1].chars().all(|c| c == '-' || c == '+' || c == ' '));
    assert!(lines[2].contains("8.8.8.8"));
    assert!(lines[3].contains("1.1.1.1"));
}

#[test]
fn test_export_html_vertical() {
    let records = vec![make_record_b()];
    let out = export(&records, ExportFormat::HtmlVertical, true).unwrap();
    assert!(out.contains("<div class=\"record\">"));
    assert!(out.contains("<h2>1.1.1.1</h2>"));
    assert!(out.contains("<ul>"));
    assert!(out.contains("<li>"));
    assert!(out.contains("&amp;"));
    assert!(out.contains("&lt;"));
    assert!(out.contains("&gt;"));
    assert!(!out.contains("Cloudflare & Co"));
}

#[test]
fn test_export_html_horizontal() {
    let records = vec![make_record_a(), make_record_b()];
    let out = export(&records, ExportFormat::HtmlHorizontal, true).unwrap();
    assert!(out.contains("<table>"));
    assert!(out.contains("<thead>"));
    assert!(out.contains("<tbody>"));
    assert!(out.contains("<th>IP Address</th>"));
    assert!(out.contains("<td>8.8.8.8</td>"));
    assert!(!out.contains("Cloudflare & Co"));
    assert!(out.contains("&amp;"));
}

#[test]
fn test_export_xml() {
    let records = vec![make_record_a(), make_record_b()];
    let out = export(&records, ExportFormat::Xml, true).unwrap();
    assert!(out.starts_with("<?xml version=\"1.0\" encoding=\"UTF-8\"?>"));
    assert!(out.contains("<records>"));
    assert!(out.contains("<record>"));
    assert!(out.contains("<ip_address>8.8.8.8</ip_address>"));
    assert!(out.contains("<country>US</country>"));
    assert!(out.contains("<owner_name>Google LLC</owner_name>"));
    assert!(!out.contains("Cloudflare & Co"));
    assert!(out.contains("&amp;"));
}

#[test]
fn test_export_whois_raw() {
    let records = vec![make_record_a(), make_record_b()];
    let out = export(&records, ExportFormat::WhoisRaw, true).unwrap();
    assert!(out.contains("ARIN WHOIS"));
    assert!(out.contains("APNIC WHOIS"));
    assert!(out.contains("\n\n-----\n\n"));
}

#[test]
fn test_export_whois_raw_skips_none() {
    let mut r = IpRecord::new(1, "10.0.0.1");
    r.raw_whois = None;
    let r2 = make_record_a();
    let out = export(&[r, r2], ExportFormat::WhoisRaw, true).unwrap();
    assert!(!out.contains("-----"));
    assert!(out.contains("ARIN WHOIS"));
}

#[test]
fn test_from_str_valid() {
    assert_eq!(ExportFormat::from_str("csv").unwrap(), ExportFormat::Csv);
    assert_eq!(ExportFormat::from_str("CSV").unwrap(), ExportFormat::Csv);
    assert_eq!(ExportFormat::from_str("tsv").unwrap(), ExportFormat::Tsv);
    assert_eq!(ExportFormat::from_str("txt").unwrap(), ExportFormat::Txt);
    assert_eq!(ExportFormat::from_str("txt-v").unwrap(), ExportFormat::Txt);
    assert_eq!(ExportFormat::from_str("txt-h").unwrap(), ExportFormat::TxtHorizontal);
    assert_eq!(ExportFormat::from_str("html").unwrap(), ExportFormat::HtmlHorizontal);
    assert_eq!(ExportFormat::from_str("html-h").unwrap(), ExportFormat::HtmlHorizontal);
    assert_eq!(ExportFormat::from_str("html-v").unwrap(), ExportFormat::HtmlVertical);
    assert_eq!(ExportFormat::from_str("xml").unwrap(), ExportFormat::Xml);
    assert_eq!(ExportFormat::from_str("whois").unwrap(), ExportFormat::WhoisRaw);
}

#[test]
fn test_from_str_invalid() {
    assert!(ExportFormat::from_str("pdf").is_err());
    assert!(ExportFormat::from_str("").is_err());
}

#[test]
fn from_str_error_names_the_format() {
    let err = ExportFormat::from_str("pdf").unwrap_err();
    assert!(matches!(&err, ExportError::InvalidFormat(s) if s == "pdf"));
    assert_eq!(err.message(), "Unknown export format: pdf");
    assert_eq!(
        ExportError::SerializationError("x".to_string()).message(),
        "Serialization error: x"
    );
}

#[test]
fn export_csv_exact_output() {
    let r = IpRecord::with_id(0, 7, "9.9.9.9");
    let out = export(&[r], ExportFormat::Csv, false).unwrap();
    assert_eq!(out, format!("7,9.9.9.9{}\n", ",".repeat(19)));
}

#[test]
fn export_of_nothing_is_header_only() {
    let out = export(&[], ExportFormat::Csv, true).unwrap();
    assert_eq!(out.lines().count(), 1);
    assert!(out.ends_with('\n'));
    let out = export(&[], ExportFormat::Csv, false).unwrap();
    assert_eq!(out, "");
}

#[test]
fn escape_and_quote_helpers() {
    assert_eq!(escape_html("a&b<c>\"d'"), "a&amp;b&lt;c&gt;&quot;d&#39;");
    assert_eq!(escape_xml("<x>"), "&lt;x&gt;");
    assert_eq!(csv_quote("plain"), "plain");
    assert_eq!(csv_quote("a,b"), "\"a,b\"");
    assert_eq!(csv_quote("say \"hi\""), "\"say \"\"hi\"\"\"");
    assert_eq!(csv_quote("two\nlines"), "\"two\nlines\"");
    assert_eq!(col_to_xml_tag("IP Address"), "ip_address");
    assert_eq!(col_to_xml_tag("Abuse E-mails"), "abuse_e-mails");
}

#[test]
fn content_types() {
    assert_eq!(export_content_type(ExportFormat::Csv), "text/csv; charset=utf-8");
    assert_eq!(export_content_type(ExportFormat::Tsv), "text/tab-separated-values; charset=utf-8");
    assert_eq!(export_content_type(ExportFormat::TxtHorizontal), "text/plain; charset=utf-8");
    assert_eq!(export_content_type(ExportFormat::HtmlVertical), "text/html; charset=utf-8");
    assert_eq!(export_content_type(ExportFormat::Xml), "application/xml; charset=utf-8");
    assert_eq!(export_content_type(ExportFormat::WhoisRaw), "text/plain; charset=utf-8");
}

#[test]
fn invalid_upper_case_format_keeps_its_name() {
    match ExportFormat::from_str("PDF") {
        Err(e) => {
            assert!(matches!(&e, ExportError::InvalidFormat(name) if name == "PDF"));
            assert_eq!(e.message(), "Unknown export format: PDF");
        }
        Ok(_) => panic!("PDF is no export format"),
    }
}
