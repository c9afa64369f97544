use atlasip::dates::normalize_date;
use atlasip::json::Json;
use atlasip::ui_config::{config_path, corrected, default_locale, default_theme, loaded_or_default, AppConfig};

#[test]
fn config_test_load_missing_file_returns_default() {
    let cfg = loaded_or_default(None);
    let def = AppConfig::default();
    assert_eq!(cfg.network.dns_resolver, def.network.dns_resolver);
    assert_eq!(cfg.network.ip_mode, def.network.ip_mode);
    assert_eq!(cfg.locale, def.locale);
    assert_eq!(cfg.theme, def.theme);
}

#[test]
fn loaded_settings_are_kept() {
    let mut c = AppConfig::default();
    c.locale = "fr".to_string();
    c.network.max_connections = 25;
    c.theme = "dark".to_string();
    let r = loaded_or_default(Some(c));
    assert_eq!(r.locale, "fr");
    assert_eq!(r.theme, "dark");
    assert_eq!(r.network.max_connections, 25);
}

#[test]
fn invalid_theme_is_replaced_by_default() {
    let mut c = AppConfig::default();
    c.locale = "fr".to_string();
    c.theme = "purple".to_string();
    c.retry.count = 7;
    let r = loaded_or_default(Some(c));
    assert_eq!(r.theme, "system");
    assert_eq!(r.locale, "fr");
    assert_eq!(r.retry.count, 7);
    for t in ["light", "dark", "system"] {
        let mut c = AppConfig::default();
        c.theme = t.to_string();
        assert_eq!(corrected(c).theme, t);
    }
}

#[test]
fn shell_defaults() {
    let c = AppConfig::default();
    assert_eq!(c.network.dns_resolver, "system");
    assert_eq!(c.network.ip_mode, "dual");
    assert!(c.network.pooling_enabled);
    assert_eq!(c.network.max_connections, 10);
    assert_eq!(c.network.retry_delay_ms, 1_000);
    assert_eq!(c.proxy.proxy_type, "HTTP");
    assert_eq!(c.timeouts.request_ms, 10_000);
    assert_eq!(c.timeouts.geoip_ms, 3_000);
    assert_eq!(c.retry.count, 2);
    assert_eq!(c.theme, "system");
    assert_eq!(c.locale, "");
    assert!(!c.autostart);
    assert_eq!(default_locale(), "en-US");
    assert_eq!(default_theme(), "system");
    assert_eq!(config_path(Some("/data")), "/data/atlasip/config.toml");
    assert_eq!(config_path(None), "./atlasip/config.toml");
}

#[test]
fn bare_dates_become_midnight_utc() {
    assert_eq!(normalize_date("2010-05-20"), "2010-05-20T00:00:00Z");
    assert_eq!(normalize_date("2010-05-20T00:00:00Z"), "2010-05-20T00:00:00Z");
    assert_eq!(normalize_date("20100520"), "20100520");
    assert_eq!(normalize_date("2010/05/20"), "2010/05/20");
    assert_eq!(normalize_date("20x0-05-20"), "20x0-05-20");
    assert_eq!(normalize_date(&normalize_date("1999-12-31")), "1999-12-31T00:00:00Z");
}

#[test]
fn json_accessors() {
    let doc = Json::Object(vec![
        ("n".to_string(), Json::Number("42".to_string())),
        ("s".to_string(), Json::String("x".to_string())),
        ("a".to_string(), Json::Array(vec![Json::Null])),
        ("neg".to_string(), Json::Number("-1".to_string())),
    ]);
    assert_eq!(doc.get("n").and_then(|v| v.as_u64()), Some(42));
    assert_eq!(doc.get("neg").and_then(|v| v.as_u64()), None);
    assert_eq!(doc.get_str("s").map(String::as_str), Some("x"));
    assert_eq!(doc.get_array("a").map(|a| a.len()), Some(1));
    assert!(doc.get("missing").is_none());
    assert!(doc.get_str("n").is_none());
    assert!(Json::Null.get("n").is_none());
}
