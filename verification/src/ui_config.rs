//! Settings of the desktop shell: network, proxy, timeouts, retries and
//! appearance, with their defaults and the location of their file.
use vstd::prelude::*;

use crate::geoip::{path_join, path_push};
use crate::text::{chars_of, eq_lit};

verus! {

/// Network behaviour.
#[derive(Clone, Debug)]
pub struct NetworkConfig {
    pub dns_resolver: String,
    pub ip_mode: String,
    pub pooling_enabled: bool,
    pub max_connections: u32,
    pub keep_alive: bool,
    pub retry_strategy: String,
    pub retry_delay_ms: u64,
}

/// The default network behaviour.
pub open spec fn is_default_network(r: NetworkConfig) -> bool {
    &&& r.dns_resolver@ == "system"@
    &&& r.ip_mode@ == "dual"@
    &&& r.pooling_enabled
    &&& r.max_connections == 10
    &&& r.keep_alive
    &&& r.retry_strategy@ == "none"@
    &&& r.retry_delay_ms == 1000
}

impl Default for NetworkConfig {
    fn default() -> (r: NetworkConfig)
        ensures
            is_default_network(r),
    {
        NetworkConfig {
            dns_resolver: "system".to_string(),
            ip_mode: "dual".to_string(),
            pooling_enabled: true,
            max_connections: 10,
            keep_alive: true,
            retry_strategy: "none".to_string(),
            retry_delay_ms: 1000,
        }
    }
}

/// Proxy use.
#[derive(Clone, Debug)]
pub struct ProxyConfig {
    pub enabled: bool,
    pub proxy_type: String,
    pub url: String,
    pub no_proxy: String,
}

/// The default proxy use: none.
pub open spec fn is_default_proxy(r: ProxyConfig) -> bool {
    &&& !r.enabled
    &&& r.proxy_type@ == "HTTP"@
    &&& r.url@ == Seq::<char>::empty()
    &&& r.no_proxy@ == Seq::<char>::empty()
}

impl Default for ProxyConfig {
    fn default() -> (r: ProxyConfig)
        ensures
            is_default_proxy(r),
    {
        ProxyConfig {
            enabled: false,
            proxy_type: "HTTP".to_string(),
            url: String::new(),
            no_proxy: String::new(),
        }
    }
}

/// Timeouts, in milliseconds.
#[derive(Clone, Debug)]
pub struct TimeoutsConfig {
    pub global_ms: u64,
    pub request_ms: u64,
    pub dns_ms: u64,
    pub geoip_ms: u64,
}

impl Default for TimeoutsConfig {
    fn default() -> (r: TimeoutsConfig)
        ensures
            r.global_ms == 5000 && r.request_ms == 10000 && r.dns_ms == 2000 && r.geoip_ms == 3000,
    {
        TimeoutsConfig { global_ms: 5000, request_ms: 10000, dns_ms: 2000, geoip_ms: 3000 }
    }
}

/// Retries of failed requests.
#[derive(Clone, Debug)]
pub struct RetryConfig {
    pub enabled: bool,
    pub count: u32,
    pub delay_ms: u64,
}

impl Default for RetryConfig {
    fn default() -> (r: RetryConfig)
        ensures
            !r.enabled && r.count == 2 && r.delay_ms == 1000,
    {
        RetryConfig { enabled: false, count: 2, delay_ms: 1000 }
    }
}

/// The shell's settings.
#[derive(Clone, Debug)]
pub struct AppConfig {
    pub network: NetworkConfig,
    pub proxy: ProxyConfig,
    pub timeouts: TimeoutsConfig,
    pub retry: RetryConfig,
    pub locale: String,
    pub theme: String,
    /// Start with the operating system session.
    pub autostart: bool,
}

/// The default settings: every section at its default (two retries), no
/// locale, the `system` theme, no autostart.
pub open spec fn is_default_settings(r: AppConfig) -> bool {
    &&& is_default_network(r.network)
    &&& is_default_proxy(r.proxy)
    &&& r.timeouts.global_ms == 5000 && r.timeouts.request_ms == 10000
    &&& r.timeouts.dns_ms == 2000 && r.timeouts.geoip_ms == 3000
    &&& !r.retry.enabled && r.retry.count == 2 && r.retry.delay_ms == 1000
    &&& r.locale@ == Seq::<char>::empty()
    &&& r.theme@ == "system"@
    &&& !r.autostart
}

impl Default for AppConfig {
    /// Every section at its default, no locale, the `system` theme, no
    /// autostart.
    fn default() -> (r: AppConfig)
        ensures
            is_default_settings(r),
    {
        AppConfig {
            network: NetworkConfig::default(),
            proxy: ProxyConfig::default(),
            timeouts: TimeoutsConfig::default(),
            retry: RetryConfig::default(),
            locale: String::new(),
            theme: "system".to_string(),
            autostart: false,
        }
    }
}

/// The locale of a file that does not name one.
pub fn default_locale() -> (r: String)
    ensures
        r@ == "en-US"@,
{
    "en-US".to_string()
}

/// The theme of a file that does not name one.
pub fn default_theme() -> (r: String)
    ensures
        r@ == "system"@,
{
    "system".to_string()
}

/// The settings file: `<data dir>/atlasip/config.toml`, with the current
/// directory standing in when there is no data directory.
pub fn config_path(data_dir: Option<&str>) -> (r: String)
    ensures
        r@ == path_join(
            path_join(
                match data_dir {
                    Some(d) => d@,
                    None => "."@,
                },
                "atlasip"@,
            ),
            "config.toml"@,
        ),
{
    let mut p = match data_dir {
        Some(d) => d.to_string(),
        None => ".".to_string(),
    };
    path_push(&mut p, "atlasip");
    path_push(&mut p, "config.toml");
    p
}

/// The themes a settings file may name.
pub open spec fn is_allowed_theme(t: Seq<char>) -> bool {
    t == "light"@ || t == "dark"@ || t == "system"@
}

/// `r` is `c` with each field whose value is not allowed replaced by its
/// default: a theme other than `light`, `dark` or `system` becomes
/// `system`; every other field is kept.
pub open spec fn corrected_from(c: AppConfig, r: AppConfig) -> bool {
    &&& r.theme@ == (if is_allowed_theme(c.theme@) {
        c.theme@
    } else {
        "system"@
    })
    &&& r.network == c.network
    &&& r.proxy == c.proxy
    &&& r.timeouts == c.timeouts
    &&& r.retry == c.retry
    &&& r.locale == c.locale
    &&& r.autostart == c.autostart
}

/// Replaces each field whose value is not allowed by its default.
pub fn corrected(c: AppConfig) -> (r: AppConfig)
    ensures
        corrected_from(c, r),
{
    let t = chars_of(c.theme.as_str());
    proof {
        reveal_strlit("light");
        reveal_strlit("dark");
        reveal_strlit("system");
    }
    let allowed = eq_lit(&t, "light") || eq_lit(&t, "dark") || eq_lit(&t, "system");
    if allowed {
        c
    } else {
        AppConfig { theme: "system".to_string(), ..c }
    }
}

/// The settings in effect after reading the file: what was read, with
/// invalid values replaced by their defaults, or the defaults when the file
/// is missing, unreadable or malformed.
pub fn loaded_or_default(read: Option<AppConfig>) -> (r: AppConfig)
    ensures
        read matches Some(c) ==> corrected_from(c, r),
        read is None ==> is_default_settings(r),
{
    match read {
        Some(c) => corrected(c),
        None => AppConfig::default(),
    }
}

} // verus!
