//! Runtime configuration: defaults, validation, the location of the file,
//! and the partial updates that the API and the command line apply.
use vstd::prelude::*;

pub use crate::dns::DnsMode;
use crate::models::ConfigUpdateRequest;
use crate::geoip::{config_base, config_base_dir, path_join, path_push};
use crate::text::{chars_of, push_str, starts_with, starts_with_lit};

verus! {

// ---------------------------------------------------------------------------
// Errors
// ---------------------------------------------------------------------------

/// Why a configuration could not be loaded, saved or accepted.
#[derive(Clone, Debug)]
pub enum ConfigError {
    IoError(String),
    ParseError(String),
    ValidationError(String),
}

impl ConfigError {
    /// The message shown for this error.
    pub fn message(&self) -> (r: String)
        ensures
            r@ == (match self {
                ConfigError::IoError(s) => "I/O error: "@ + s@,
                ConfigError::ParseError(s) => "Parse error: "@ + s@,
                ConfigError::ValidationError(s) => "Validation error: "@ + s@,
            }),
    {
        let (head, s) = match self {
            ConfigError::IoError(s) => ("I/O error: ", s),
            ConfigError::ParseError(s) => ("Parse error: ", s),
            ConfigError::ValidationError(s) => ("Validation error: ", s),
        };
        let mut m = head.to_string();
        push_str(&mut m, s.as_str());
        m
    }
}

// ---------------------------------------------------------------------------
// Types
// ---------------------------------------------------------------------------

/// Per-protocol proxy URLs; each must start with its protocol's scheme.
#[derive(Clone, Debug)]
pub struct ProxyConfig {
    pub http: Option<String>,
    pub https: Option<String>,
    pub socks4: Option<String>,
    pub socks5: Option<String>,
}

impl Default for ProxyConfig {
    fn default() -> (r: ProxyConfig)
        ensures
            r.http is None && r.https is None && r.socks4 is None && r.socks5 is None,
    {
        ProxyConfig { http: None, https: None, socks4: None, socks5: None }
    }
}

/// Runtime configuration.
#[derive(Clone, Debug)]
pub struct AppConfig {
    /// Address and port the HTTP API listens on.
    pub listen_addr: String,
    /// Default network timeout in milliseconds.
    pub default_timeout_ms: u64,
    pub dns_timeout_ms: u64,
    pub whois_timeout_ms: u64,
    pub rdap_timeout_ms: u64,
    /// Deadline of a whole lookup, in milliseconds.
    pub global_timeout_ms: u64,
    /// Lifetime of a cached lookup, in seconds.
    pub cache_ttl_secs: u64,
    /// Silently skip private and reserved addresses.
    pub ignore_private_ips: bool,
    /// Maximum number of concurrent lookups.
    pub max_concurrent_lookups: u32,
    /// Retry failed lookups.
    pub auto_retry_failed: bool,
    /// After this many lookups, pause for `pause_duration_ms` (`0`: never).
    pub pause_every: u32,
    pub pause_duration_ms: u64,
    /// WHOIS server used for all queries (empty: automatic).
    pub whois_server_override: String,
    pub language: String,
    /// Locale of the user interface and messages.
    pub locale: String,
    pub default_export_format: String,
    pub csv_with_header: bool,
    pub proxy_type: String,
    pub proxy_host: String,
    pub proxy_port: u16,
    pub proxy: ProxyConfig,
    /// DNS transport strategy.
    pub dns_mode: DnsMode,
    /// DNS-over-HTTPS endpoint.
    pub doh_endpoint: String,
    /// DNS-over-TLS provider name.
    pub dot_server: String,
    /// Timeout of the system resolver in the automatic strategy.
    pub dns_system_timeout_ms: u64,
    /// Run without a user interface.
    pub headless: bool,
    pub maxmind_account_id: Option<String>,
    pub maxmind_license_key: Option<String>,
}

/// A configuration, as plain values.
#[verifier::ext_equal]
pub struct ConfigView {
    pub listen_addr: Seq<char>,
    pub default_timeout_ms: u64,
    pub dns_timeout_ms: u64,
    pub whois_timeout_ms: u64,
    pub rdap_timeout_ms: u64,
    pub global_timeout_ms: u64,
    pub cache_ttl_secs: u64,
    pub ignore_private_ips: bool,
    pub max_concurrent_lookups: u32,
    pub auto_retry_failed: bool,
    pub pause_every: u32,
    pub pause_duration_ms: u64,
    pub whois_server_override: Seq<char>,
    pub language: Seq<char>,
    pub locale: Seq<char>,
    pub default_export_format: Seq<char>,
    pub csv_with_header: bool,
    pub proxy_type: Seq<char>,
    pub proxy_host: Seq<char>,
    pub proxy_port: u16,
    pub proxy_http: Option<Seq<char>>,
    pub proxy_https: Option<Seq<char>>,
    pub proxy_socks4: Option<Seq<char>>,
    pub proxy_socks5: Option<Seq<char>>,
    pub dns_mode: DnsMode,
    pub doh_endpoint: Seq<char>,
    pub dot_server: Seq<char>,
    pub dns_system_timeout_ms: u64,
    pub headless: bool,
    pub maxmind_account_id: Option<Seq<char>>,
    pub maxmind_license_key: Option<Seq<char>>,
}

impl View for AppConfig {
    type V = ConfigView;

    open spec fn view(&self) -> ConfigView {
        ConfigView {
            listen_addr: self.listen_addr@,
            default_timeout_ms: self.default_timeout_ms,
            dns_timeout_ms: self.dns_timeout_ms,
            whois_timeout_ms: self.whois_timeout_ms,
            rdap_timeout_ms: self.rdap_timeout_ms,
            global_timeout_ms: self.global_timeout_ms,
            cache_ttl_secs: self.cache_ttl_secs,
            ignore_private_ips: self.ignore_private_ips,
            max_concurrent_lookups: self.max_concurrent_lookups,
            auto_retry_failed: self.auto_retry_failed,
            pause_every: self.pause_every,
            pause_duration_ms: self.pause_duration_ms,
            whois_server_override: self.whois_server_override@,
            language: self.language@,
            locale: self.locale@,
            default_export_format: self.default_export_format@,
            csv_with_header: self.csv_with_header,
            proxy_type: self.proxy_type@,
            proxy_host: self.proxy_host@,
            proxy_port: self.proxy_port,
            proxy_http: self.proxy.http.deep_view(),
            proxy_https: self.proxy.https.deep_view(),
            proxy_socks4: self.proxy.socks4.deep_view(),
            proxy_socks5: self.proxy.socks5.deep_view(),
            dns_mode: self.dns_mode,
            doh_endpoint: self.doh_endpoint@,
            dot_server: self.dot_server@,
            dns_system_timeout_ms: self.dns_system_timeout_ms,
            headless: self.headless,
            maxmind_account_id: self.maxmind_account_id.deep_view(),
            maxmind_license_key: self.maxmind_license_key.deep_view(),
        }
    }
}

/// Whether `c` holds the default configuration.
pub open spec fn is_default_config(c: AppConfig) -> bool {
    &&& c.listen_addr@ == "127.0.0.1:8080"@
    &&& c.default_timeout_ms == 5000
    &&& c.dns_timeout_ms == 2000
    &&& c.whois_timeout_ms == 5000
    &&& c.rdap_timeout_ms == 5000
    &&& c.global_timeout_ms == 5000
    &&& c.cache_ttl_secs == 3600
    &&& c.ignore_private_ips
    &&& c.max_concurrent_lookups == 32
    &&& !c.auto_retry_failed
    &&& c.pause_every == 0
    &&& c.pause_duration_ms == 0
    &&& c.whois_server_override@ == Seq::<char>::empty()
    &&& c.language@ == "fr"@
    &&& c.locale@ == "en-US"@
    &&& c.default_export_format@ == "csv"@
    &&& c.csv_with_header
    &&& c.proxy_type@ == "none"@
    &&& c.proxy_host@ == Seq::<char>::empty()
    &&& c.proxy_port == 0
    &&& c.proxy.http is None && c.proxy.https is None
    &&& c.proxy.socks4 is None && c.proxy.socks5 is None
    &&& c.dns_mode == DnsMode::Automatic
    &&& c.doh_endpoint@ == "https://cloudflare-dns.com/dns-query"@
    &&& c.dot_server@ == "cloudflare"@
    &&& c.dns_system_timeout_ms == 2000
    &&& !c.headless
    &&& c.maxmind_account_id is None && c.maxmind_license_key is None
}

impl Default for AppConfig {
    fn default() -> (r: AppConfig)
        ensures
            is_default_config(r),
    {
        AppConfig {
            listen_addr: "127.0.0.1:8080".to_string(),
            default_timeout_ms: 5000,
            dns_timeout_ms: 2000,
            whois_timeout_ms: 5000,
            rdap_timeout_ms: 5000,
            global_timeout_ms: 5000,
            cache_ttl_secs: 3600,
            ignore_private_ips: true,
            max_concurrent_lookups: 32,
            auto_retry_failed: false,
            pause_every: 0,
            pause_duration_ms: 0,
            whois_server_override: String::new(),
            language: "fr".to_string(),
            locale: "en-US".to_string(),
            default_export_format: "csv".to_string(),
            csv_with_header: true,
            proxy_type: "none".to_string(),
            proxy_host: String::new(),
            proxy_port: 0,
            proxy: ProxyConfig::default(),
            dns_mode: DnsMode::Automatic,
            doh_endpoint: "https://cloudflare-dns.com/dns-query".to_string(),
            dot_server: "cloudflare".to_string(),
            dns_system_timeout_ms: 2000,
            headless: false,
            maxmind_account_id: None,
            maxmind_license_key: None,
        }
    }
}

// ---------------------------------------------------------------------------
// Validation
// ---------------------------------------------------------------------------

/// The first proxy URL that does not start with its scheme, with that
/// scheme, checking `http`, `https`, `socks4`, `socks5` in that order.
pub open spec fn bad_proxy(p: ProxyConfig) -> Option<(Seq<char>, Seq<char>)> {
    match scheme_mismatch(p.http, "http://"@) {
        Some(u) => Some((u, "http://"@)),
        None => match scheme_mismatch(p.https, "https://"@) {
            Some(u) => Some((u, "https://"@)),
            None => match scheme_mismatch(p.socks4, "socks4://"@) {
                Some(u) => Some((u, "socks4://"@)),
                None => match scheme_mismatch(p.socks5, "socks5://"@) {
                    Some(u) => Some((u, "socks5://"@)),
                    None => None,
                },
            },
        },
    }
}

/// The URL, when present and not starting with `scheme`.
pub open spec fn scheme_mismatch(url: Option<String>, scheme: Seq<char>) -> Option<Seq<char>> {
    match url {
        Some(u) => if starts_with(u@, scheme) {
            None
        } else {
            Some(u@)
        },
        None => None,
    }
}

/// The first rule that `c` breaks, as its message.
pub open spec fn validation_error(c: AppConfig) -> Option<Seq<char>> {
    if !c.listen_addr@.contains(':') {
        Some("listen_addr must be in the form \"host:port\""@)
    } else if c.default_timeout_ms == 0 {
        Some("default_timeout_ms must be > 0"@)
    } else if c.max_concurrent_lookups == 0 {
        Some("max_concurrent_lookups must be > 0"@)
    } else {
        match bad_proxy(c.proxy) {
            Some((u, scheme)) => Some("proxy URL \""@ + u + "\" must start with \""@ + scheme + "\""@),
            None => None,
        }
    }
}

/// The message of a proxy URL with the wrong scheme.
fn proxy_message(url: &str, scheme: &str) -> (r: String)
    ensures
        r@ == "proxy URL \""@ + url@ + "\" must start with \""@ + scheme@ + "\""@,
{
    let mut m = "proxy URL \"".to_string();
    push_str(&mut m, url);
    push_str(&mut m, "\" must start with \"");
    push_str(&mut m, scheme);
    push_str(&mut m, "\"");
    m
}

/// Checks `url` (when present) against `scheme`.
fn check_scheme(url: &Option<String>, scheme: &str) -> (r: Option<String>)
    ensures
        match url {
            Some(u) => if starts_with(u@, scheme@) {
                r is None
            } else {
                r matches Some(m) && m@ == "proxy URL \""@ + u@ + "\" must start with \""@ + scheme@ + "\""@
            },
            None => r is None,
        },
{
    match url {
        Some(u) => {
            let v = chars_of(u.as_str());
            if starts_with_lit(&v, scheme) {
                None
            } else {
                Some(proxy_message(u.as_str(), scheme))
            }
        },
        None => None,
    }
}

impl AppConfig {
    /// Validates the configuration, returning the first violation found.
    pub fn validate(&self) -> (r: Result<(), ConfigError>)
        ensures
            match validation_error(*self) {
                Some(m) => r matches Err(ConfigError::ValidationError(s)) && s@ == m,
                None => r is Ok,
            },
    {
        let addr = chars_of(self.listen_addr.as_str());
        if !crate::text::contains_char(&addr, ':') {
            return Err(
                ConfigError::ValidationError(
                    "listen_addr must be in the form \"host:port\"".to_string(),
                ),
            );
        }
        if self.default_timeout_ms == 0 {
            return Err(ConfigError::ValidationError("default_timeout_ms must be > 0".to_string()));
        }
        if self.max_concurrent_lookups == 0 {
            return Err(
                ConfigError::ValidationError("max_concurrent_lookups must be > 0".to_string()),
            );
        }
        proof {
            reveal_strlit("http://");
            reveal_strlit("https://");
            reveal_strlit("socks4://");
            reveal_strlit("socks5://");
        }
        match check_scheme(&self.proxy.http, "http://") {
            Some(m) => return Err(ConfigError::ValidationError(m)),
            None => {},
        }
        match check_scheme(&self.proxy.https, "https://") {
            Some(m) => return Err(ConfigError::ValidationError(m)),
            None => {},
        }
        match check_scheme(&self.proxy.socks4, "socks4://") {
            Some(m) => return Err(ConfigError::ValidationError(m)),
            None => {},
        }
        match check_scheme(&self.proxy.socks5, "socks5://") {
            Some(m) => return Err(ConfigError::ValidationError(m)),
            None => {},
        }
        Ok(())
    }

    /// The canonical path of the configuration file, given the values of
    /// `XDG_CONFIG_HOME` and `HOME`: `<config base>/atlasip/config.toml`.
    pub fn default_path(xdg_config_home: Option<&str>, home: Option<&str>) -> (r: String)
        ensures
            r@ == path_join(
                path_join(
                    config_base(
                        match xdg_config_home {
                            Some(x) => Some(x@),
                            None => None,
                        },
                        match home {
                            Some(h) => Some(h@),
                            None => None,
                        },
                    ),
                    "atlasip"@,
                ),
                "config.toml"@,
            ),
    {
        let mut p = config_base_dir(xdg_config_home, home);
        path_push(&mut p, "atlasip");
        path_push(&mut p, "config.toml");
        p
    }
}

// ---------------------------------------------------------------------------
// Partial updates
// ---------------------------------------------------------------------------

/// `o` unless `v` is present.
pub open spec fn or_keep<T>(v: Option<T>, o: T) -> T {
    match v {
        Some(x) => x,
        None => o,
    }
}

/// The text of an optional update.
pub open spec fn text_of(v: Option<String>) -> Option<Seq<char>> {
    match v {
        Some(s) => Some(s@),
        None => None,
    }
}

/// The configuration after a partial update: each field present in the
/// request replaces the configured one; MaxMind credentials become present.
pub open spec fn updated(o: ConfigView, u: ConfigUpdateRequest) -> ConfigView {
    ConfigView {
        locale: or_keep(text_of(u.locale), o.locale),
        proxy_type: or_keep(text_of(u.proxy_type), o.proxy_type),
        proxy_host: or_keep(text_of(u.proxy_host), o.proxy_host),
        proxy_port: or_keep(u.proxy_port, o.proxy_port),
        dns_timeout_ms: or_keep(u.dns_timeout_ms, o.dns_timeout_ms),
        whois_timeout_ms: or_keep(u.whois_timeout_ms, o.whois_timeout_ms),
        rdap_timeout_ms: or_keep(u.rdap_timeout_ms, o.rdap_timeout_ms),
        default_export_format: or_keep(text_of(u.default_export_format), o.default_export_format),
        csv_with_header: or_keep(u.csv_with_header, o.csv_with_header),
        maxmind_account_id: match text_of(u.maxmind_account_id) {
            Some(v) => Some(v),
            None => o.maxmind_account_id,
        },
        maxmind_license_key: match text_of(u.maxmind_license_key) {
            Some(v) => Some(v),
            None => o.maxmind_license_key,
        },
        ..o
    }
}

fn set_if<T>(dest: &mut T, v: Option<T>)
    ensures
        *final(dest) == or_keep(v, *old(dest)),
{
    if let Some(x) = v {
        *dest = x;
    }
}

fn set_text_if(dest: &mut String, v: Option<String>)
    ensures
        final(dest)@ == or_keep(text_of(v), old(dest)@),
{
    if let Some(x) = v {
        *dest = x;
    }
}

fn set_some_if(dest: &mut Option<String>, v: Option<String>)
    ensures
        final(dest).deep_view() == (match text_of(v) {
            Some(t) => Some(t),
            None => old(dest).deep_view(),
        }),
{
    if let Some(x) = v {
        *dest = Some(x);
    }
}

impl AppConfig {
    /// Applies a partial update.
    pub fn apply_update(&mut self, u: ConfigUpdateRequest)
        ensures
            final(self)@ == updated(old(self)@, u),
    {
        let ghost g = u;
        let ConfigUpdateRequest {
            locale,
            proxy_type,
            proxy_host,
            proxy_port,
            dns_timeout_ms,
            whois_timeout_ms,
            rdap_timeout_ms,
            default_export_format,
            csv_with_header,
            maxmind_account_id,
            maxmind_license_key,
        } = u;
        set_text_if(&mut self.locale, locale);
        set_text_if(&mut self.proxy_type, proxy_type);
        set_text_if(&mut self.proxy_host, proxy_host);
        set_if(&mut self.proxy_port, proxy_port);
        set_if(&mut self.dns_timeout_ms, dns_timeout_ms);
        set_if(&mut self.whois_timeout_ms, whois_timeout_ms);
        set_if(&mut self.rdap_timeout_ms, rdap_timeout_ms);
        set_text_if(&mut self.default_export_format, default_export_format);
        set_if(&mut self.csv_with_header, csv_with_header);
        set_some_if(&mut self.maxmind_account_id, maxmind_account_id);
        set_some_if(&mut self.maxmind_license_key, maxmind_license_key);
        proof {
            assert(self@ =~= updated(old(self)@, g));
        }
    }
}

/// The default configuration passes validation.
pub proof fn law_default_config_valid(c: AppConfig)
    requires
        is_default_config(c),
    ensures
        validation_error(c) is None,
{
    reveal_strlit("127.0.0.1:8080");
    assert(c.listen_addr@[9] == ':');
}

} // verus!
