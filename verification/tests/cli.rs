use atlasip::cli::{apply_key_value, opt_str, parse_bool, parse_field, parse_uint_exec, IntErrorKind, SettingError};
use atlasip::config::AppConfig;
use atlasip::dns::DnsMode;
use atlasip::export::ExportFormat;

// ── export format validation ─────────────────────────────────────────────

#[test]
fn test_cli_export_format_validation() {
    for fmt in &["csv", "tsv", "txt", "txt-v", "txt-h", "html", "html-h", "html-v", "xml", "whois"] {
        assert!(ExportFormat::from_str(fmt).is_ok(), "format '{fmt}' should be valid");
    }
    for bad in &["pdf", "docx", "", "JSON", "CSV2"] {
        assert!(ExportFormat::from_str(bad).is_err(), "format '{bad}' should be invalid");
    }
}

// ── apply_key_value ──────────────────────────────────────────────────────

#[test]
fn test_apply_key_value_string() {
    let mut cfg = AppConfig::default();
    apply_key_value(&mut cfg, "language=en").unwrap();
    assert_eq!(cfg.language, "en");
}

#[test]
fn test_apply_key_value_u64() {
    let mut cfg = AppConfig::default();
    apply_key_value(&mut cfg, "default_timeout_ms=9000").unwrap();
    assert_eq!(cfg.default_timeout_ms, 9000);
}

#[test]
fn test_apply_key_value_bool() {
    let mut cfg = AppConfig::default();
    apply_key_value(&mut cfg, "ignore_private_ips=false").unwrap();
    assert!(!cfg.ignore_private_ips);

    apply_key_value(&mut cfg, "csv_with_header=true").unwrap();
    assert!(cfg.csv_with_header);
}

#[test]
fn test_apply_key_value_proxy() {
    let mut cfg = AppConfig::default();
    apply_key_value(&mut cfg, "proxy.socks5=socks5://127.0.0.1:9050").unwrap();
    assert_eq!(cfg.proxy.socks5.as_deref(), Some("socks5://127.0.0.1:9050"));
    apply_key_value(&mut cfg, "proxy.socks5=").unwrap();
    assert!(cfg.proxy.socks5.is_none());
}

#[test]
fn test_apply_key_value_invalid_key() {
    let mut cfg = AppConfig::default();
    assert!(apply_key_value(&mut cfg, "nonexistent_key=value").is_err());
}

#[test]
fn test_apply_key_value_missing_equals() {
    let mut cfg = AppConfig::default();
    assert!(apply_key_value(&mut cfg, "language").is_err());
}

// ── refusals and their messages ──────────────────────────────────────────

#[test]
fn apply_key_value_unknown_key_names_the_key() {
    let mut cfg = AppConfig::default();
    let err = apply_key_value(&mut cfg, " colour = red").unwrap_err();
    assert!(matches!(&err, SettingError::UnknownKey(k) if k == " colour "));
    assert_eq!(err.message(), "Unknown config key:  colour ");
}

#[test]
fn apply_key_value_missing_equals_message() {
    let mut cfg = AppConfig::default();
    let err = apply_key_value(&mut cfg, "language").unwrap_err();
    assert!(matches!(&err, SettingError::MissingEquals(kv) if kv == "language"));
    assert_eq!(err.message(), "Expected key=value, got: language");
}

#[test]
fn apply_key_value_refusal_leaves_config_unchanged() {
    let mut cfg = AppConfig::default();
    let err = apply_key_value(&mut cfg, "default_timeout_ms=fast").unwrap_err();
    assert!(matches!(err, SettingError::InvalidNumber { kind: IntErrorKind::InvalidDigit, .. }));
    assert_eq!(cfg.default_timeout_ms, 5000);
    assert_eq!(
        err.message(),
        "Invalid value for 'default_timeout_ms': invalid digit found in string"
    );
}

#[test]
fn apply_key_value_port_overflow() {
    let mut cfg = AppConfig::default();
    let err = apply_key_value(&mut cfg, "proxy_port=70000").unwrap_err();
    assert!(matches!(err, SettingError::InvalidNumber { kind: IntErrorKind::PosOverflow, .. }));
    assert_eq!(cfg.proxy_port, 0);
    apply_key_value(&mut cfg, "proxy_port=65535").unwrap();
    assert_eq!(cfg.proxy_port, 65535);
}

#[test]
fn apply_key_value_empty_number() {
    let mut cfg = AppConfig::default();
    let err = apply_key_value(&mut cfg, "pause_every=").unwrap_err();
    assert!(matches!(err, SettingError::InvalidNumber { kind: IntErrorKind::Empty, .. }));
    assert_eq!(
        err.message(),
        "Invalid value for 'pause_every': cannot parse integer from empty string"
    );
}

#[test]
fn apply_key_value_invalid_bool() {
    let mut cfg = AppConfig::default();
    let err = apply_key_value(&mut cfg, "headless=maybe").unwrap_err();
    assert!(matches!(&err, SettingError::InvalidBool { key, value } if key == "headless" && value == "maybe"));
    assert_eq!(err.message(), "Invalid boolean for 'headless': maybe");
    assert!(!cfg.headless);
    apply_key_value(&mut cfg, "headless=YES").unwrap();
    assert!(cfg.headless);
}

#[test]
fn apply_key_value_dns_mode() {
    let mut cfg = AppConfig::default();
    apply_key_value(&mut cfg, "dns_mode=DoH").unwrap();
    assert_eq!(cfg.dns_mode, DnsMode::DohOnly);
    apply_key_value(&mut cfg, "dns_mode=off").unwrap();
    assert_eq!(cfg.dns_mode, DnsMode::Disabled);
    let err = apply_key_value(&mut cfg, "dns_mode=fast").unwrap_err();
    assert!(matches!(&err, SettingError::InvalidDnsMode(v) if v == "fast"));
    assert_eq!(cfg.dns_mode, DnsMode::Disabled);
}

#[test]
fn apply_key_value_value_keeps_later_equals() {
    let mut cfg = AppConfig::default();
    apply_key_value(&mut cfg, "proxy.http=http://h/?a=b").unwrap();
    assert_eq!(cfg.proxy.http.as_deref(), Some("http://h/?a=b"));
}

// ── value parsers ────────────────────────────────────────────────────────

#[test]
fn parse_uint_accepts_plus_sign() {
    assert_eq!(parse_uint_exec("+42", 100), Ok(42));
    assert_eq!(parse_uint_exec("+", 100), Err(IntErrorKind::InvalidDigit));
    assert_eq!(parse_uint_exec("-1", 100), Err(IntErrorKind::InvalidDigit));
    assert_eq!(parse_uint_exec("", 100), Err(IntErrorKind::Empty));
    assert_eq!(parse_uint_exec("101", 100), Err(IntErrorKind::PosOverflow));
    assert_eq!(parse_uint_exec("18446744073709551615", u64::MAX), Ok(u64::MAX));
    assert_eq!(parse_uint_exec("18446744073709551616", u64::MAX), Err(IntErrorKind::PosOverflow));
}

#[test]
fn parse_field_and_bool_values() {
    assert_eq!(parse_field("7", "k", 10).unwrap(), 7);
    assert!(parse_field("x", "k", 10).is_err());
    assert!(parse_bool("No", "k").unwrap() == false);
    assert!(parse_bool("1", "k").unwrap());
    assert!(parse_bool("", "k").is_err());
}

#[test]
fn opt_str_empty_is_none() {
    assert_eq!(opt_str(""), None);
    assert_eq!(opt_str("x"), Some("x".to_string()));
}
