use atlasip::config::{AppConfig, ConfigError, ProxyConfig};
use atlasip::dns::DnsMode;
use atlasip::models::ConfigUpdateRequest;

#[test]
fn test_default_config() {
    let cfg = AppConfig::default();
    assert_eq!(cfg.listen_addr, "127.0.0.1:8080");
    assert_eq!(cfg.default_timeout_ms, 5000);
    assert!(cfg.ignore_private_ips);
    assert_eq!(cfg.max_concurrent_lookups, 32);
    assert!(!cfg.auto_retry_failed);
    assert_eq!(cfg.pause_every, 0);
    assert_eq!(cfg.pause_duration_ms, 0);
    assert_eq!(cfg.whois_server_override, "");
    assert!(cfg.proxy.http.is_none());
    assert!(cfg.proxy.https.is_none());
    assert!(cfg.proxy.socks4.is_none());
    assert!(cfg.proxy.socks5.is_none());
    assert!(cfg.validate().is_ok());
}

#[test]
fn test_proxy_validation() {
    let mut cfg = AppConfig::default();

    cfg.proxy.http = Some("http://proxy:3128".to_string());
    cfg.proxy.https = Some("https://proxy:3129".to_string());
    cfg.proxy.socks4 = Some("socks4://proxy:1080".to_string());
    cfg.proxy.socks5 = Some("socks5://proxy:1081".to_string());
    assert!(cfg.validate().is_ok());

    cfg.proxy.http = Some("socks5://proxy:3128".to_string());
    assert!(cfg.validate().is_err());

    cfg.proxy.http = None;
    cfg.proxy.socks5 = Some("http://proxy:1081".to_string());
    assert!(cfg.validate().is_err());

    cfg.proxy = ProxyConfig::default();
    assert!(cfg.validate().is_ok());
}

#[test]
fn test_validation_listen_addr() {
    let mut cfg = AppConfig::default();
    cfg.listen_addr = "no-colon".to_string();
    assert!(cfg.validate().is_err());

    cfg.listen_addr = "127.0.0.1:8080".to_string();
    assert!(cfg.validate().is_ok());
}

#[test]
fn test_validation_timeout_zero() {
    let mut cfg = AppConfig::default();
    cfg.default_timeout_ms = 0;
    let err = cfg.validate().unwrap_err();
    assert!(matches!(err, ConfigError::ValidationError(_)));
}

#[test]
fn test_validation_concurrency_zero() {
    let mut cfg = AppConfig::default();
    cfg.max_concurrent_lookups = 0;
    assert!(cfg.validate().is_err());
}

#[test]
fn validation_messages_name_the_first_violation() {
    let mut cfg = AppConfig::default();
    cfg.listen_addr = "nowhere".to_string();
    cfg.default_timeout_ms = 0;
    let err = cfg.validate().unwrap_err();
    assert_eq!(err.message(), "Validation error: listen_addr must be in the form \"host:port\"");

    cfg.listen_addr = "127.0.0.1:1".to_string();
    assert_eq!(cfg.validate().unwrap_err().message(), "Validation error: default_timeout_ms must be > 0");

    cfg.default_timeout_ms = 1;
    cfg.max_concurrent_lookups = 0;
    assert_eq!(
        cfg.validate().unwrap_err().message(),
        "Validation error: max_concurrent_lookups must be > 0"
    );

    cfg.max_concurrent_lookups = 1;
    cfg.proxy.https = Some("http://p:1".to_string());
    assert_eq!(
        cfg.validate().unwrap_err().message(),
        "Validation error: proxy URL \"http://p:1\" must start with \"https://\""
    );
}

#[test]
fn config_error_messages() {
    assert_eq!(ConfigError::IoError("disk".to_string()).message(), "I/O error: disk");
    assert_eq!(ConfigError::ParseError("bad".to_string()).message(), "Parse error: bad");
}

#[test]
fn default_config_extended_fields() {
    let cfg = AppConfig::default();
    assert_eq!(cfg.dns_timeout_ms, 2000);
    assert_eq!(cfg.locale, "en-US");
    assert_eq!(cfg.proxy_type, "none");
    assert_eq!(cfg.dns_mode, DnsMode::Automatic);
    assert_eq!(cfg.doh_endpoint, "https://cloudflare-dns.com/dns-query");
    assert_eq!(cfg.dot_server, "cloudflare");
    assert!(cfg.csv_with_header);
}

#[test]
fn default_path_follows_xdg_then_home() {
    assert_eq!(AppConfig::default_path(Some("/x/cfg"), Some("/home/u")), "/x/cfg/atlasip/config.toml");
    assert_eq!(AppConfig::default_path(None, Some("/home/u")), "/home/u/.config/atlasip/config.toml");
    assert_eq!(AppConfig::default_path(None, None), ".config/atlasip/config.toml");
}

fn empty_update() -> ConfigUpdateRequest {
    ConfigUpdateRequest {
        locale: None,
        proxy_type: None,
        proxy_host: None,
        proxy_port: None,
        dns_timeout_ms: None,
        whois_timeout_ms: None,
        rdap_timeout_ms: None,
        default_export_format: None,
        csv_with_header: None,
        maxmind_account_id: None,
        maxmind_license_key: None,
    }
}

#[test]
fn apply_update_changes_only_given_fields() {
    let mut cfg = AppConfig::default();
    let mut u = empty_update();
    u.locale = Some("fr-FR".to_string());
    u.dns_timeout_ms = Some(1000);
    u.maxmind_license_key = Some("key".to_string());
    cfg.apply_update(u);
    assert_eq!(cfg.locale, "fr-FR");
    assert_eq!(cfg.dns_timeout_ms, 1000);
    assert_eq!(cfg.maxmind_license_key.as_deref(), Some("key"));
    assert_eq!(cfg.proxy_type, "none");
    assert_eq!(cfg.whois_timeout_ms, 5000);
    assert!(cfg.maxmind_account_id.is_none());
}
