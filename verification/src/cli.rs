//! The command line: its commands, and `config set key=value`.
use vstd::prelude::*;

use crate::config::{AppConfig, ConfigView};
use crate::dns::DnsMode;
use crate::json::{digit_val, is_digit};
use crate::text::{
    ascii_lower, chars_of, eq_lit, lower_vec, push_str, split_once_char, split_once_char_exec,
    string_of, trim, trim_vec,
};

verus! {

// ---------------------------------------------------------------------------
// Commands
// ---------------------------------------------------------------------------

/// The command line.
#[derive(Clone, Debug)]
pub struct Cli {
    pub command: Commands,
}

/// The commands.
#[allow(inconsistent_fields)]
#[derive(Clone, Debug)]
pub enum Commands {
    /// Look up one address or host name.
    Lookup {
        target: String,
        /// Output format (`json` or an export format).
        format: String,
        /// File to write to instead of the standard output.
        output: Option<String>,
        /// Use RDAP only.
        rdap_only: bool,
        /// Use WHOIS only.
        whois_only: bool,
    },
    /// Export the results of earlier lookups.
    Export {
        format: String,
        output: String,
        /// Comma-separated record identifiers to include (all when absent).
        ids: Option<String>,
    },
    /// Start the local HTTP API.
    Serve {
        /// Address to bind instead of the configured one.
        bind: Option<String>,
    },
    /// Read or update the configuration.
    Config { action: ConfigAction },
    /// Install the systemd service.
    InstallServiceLinux,
    /// Remove the systemd service.
    UninstallServiceLinux,
    /// Install the launchd service (a system daemon when `daemon`).
    InstallServiceMacos { daemon: bool },
    /// Remove the launchd service.
    UninstallServiceMacos { daemon: bool },
}

/// What `config` does.
#[derive(Clone, Debug)]
pub enum ConfigAction {
    /// Print the configuration.
    Show,
    /// Set one value (`key=value`).
    SetValue { kv: String },
}

// ---------------------------------------------------------------------------
// Numbers and booleans
// ---------------------------------------------------------------------------

/// Why a text is not an unsigned integer (as `str::parse` reports it).
#[derive(Clone, Copy, PartialEq, Eq, Structural, Debug)]
pub enum IntErrorKind {
    /// The text is empty.
    Empty,
    /// The text holds a character that is not a digit.
    InvalidDigit,
    /// The number does not fit the target type.
    PosOverflow,
}

impl IntErrorKind {
    /// The message that `ParseIntError` shows.
    pub fn message(&self) -> (r: &'static str)
        ensures
            r@ == (match self {
                IntErrorKind::Empty => "cannot parse integer from empty string"@,
                IntErrorKind::InvalidDigit => "invalid digit found in string"@,
                IntErrorKind::PosOverflow => "number too large to fit in target type"@,
            }),
    {
        match self {
            IntErrorKind::Empty => "cannot parse integer from empty string",
            IntErrorKind::InvalidDigit => "invalid digit found in string",
            IntErrorKind::PosOverflow => "number too large to fit in target type",
        }
    }
}

/// Reads the digits `ds` onto `acc`, left to right: the first non-digit is
/// an error, and so is a value above `max`.
pub open spec fn scan_digits(ds: Seq<char>, acc: nat, max: nat) -> Result<nat, IntErrorKind>
    decreases ds.len(),
{
    if ds.len() == 0 {
        Ok(acc)
    } else if !is_digit(ds[0]) {
        Err(IntErrorKind::InvalidDigit)
    } else {
        let a = (acc * 10 + digit_val(ds[0])) as nat;
        if a > max {
            Err(IntErrorKind::PosOverflow)
        } else {
            scan_digits(ds.drop_first(), a, max)
        }
    }
}

/// An unsigned integer no larger than `max`, as `str::parse` reads it: an
/// optional `+`, then decimal digits.
pub open spec fn parse_uint(s: Seq<char>, max: nat) -> Result<nat, IntErrorKind> {
    if s.len() == 0 {
        Err(IntErrorKind::Empty)
    } else if (s[0] == '+' || s[0] == '-') && s.len() == 1 {
        Err(IntErrorKind::InvalidDigit)
    } else if s[0] == '+' {
        scan_digits(s.drop_first(), 0, max)
    } else {
        scan_digits(s, 0, max)
    }
}

/// A scanned value stays within the bound.
pub proof fn lemma_scan_bound(ds: Seq<char>, acc: nat, max: nat)
    requires
        acc <= max,
    ensures
        scan_digits(ds, acc, max) matches Ok(n) ==> n <= max,
    decreases ds.len(),
{
    if ds.len() > 0 && is_digit(ds[0]) {
        let a = (acc * 10 + digit_val(ds[0])) as nat;
        if a <= max {
            lemma_scan_bound(ds.drop_first(), a, max);
        }
    }
}

/// Parses an unsigned integer no larger than `max`.
pub fn parse_uint_exec(s: &str, max: u64) -> (r: Result<u64, IntErrorKind>)
    ensures
        match parse_uint(s@, max as nat) {
            Ok(n) => r matches Ok(x) && x == n,
            Err(e) => r == Err::<u64, IntErrorKind>(e),
        },
        r matches Ok(x) ==> x <= max,
{
    let v = chars_of(s);
    if v.len() == 0 {
        return Err(IntErrorKind::Empty);
    }
    if (v[0] == '+' || v[0] == '-') && v.len() == 1 {
        return Err(IntErrorKind::InvalidDigit);
    }
    let start: usize = if v[0] == '+' {
        1
    } else {
        0
    };
    let ghost ds = v@.skip(start as int);
    proof {
        if start == 1 {
            assert(ds =~= v@.drop_first());
        } else {
            assert(ds =~= v@);
        }
        assert(parse_uint(s@, max as nat) == scan_digits(ds, 0, max as nat));
        assert(v@.skip(start as int) == ds);
    }
    let mut acc: u64 = 0;
    let mut i: usize = start;
    while i < v.len()
        invariant
            start <= i <= v.len(),
            acc <= max,
            parse_uint(s@, max as nat) == scan_digits(ds, 0, max as nat),
            ds == v@.skip(start as int),
            scan_digits(ds, 0, max as nat) == scan_digits(v@.skip(i as int), acc as nat, max as nat),
        decreases v.len() - i,
    {
        proof {
            assert(v@.skip(i as int).drop_first() =~= v@.skip(i + 1));
            assert(v@.skip(i as int)[0] == v@[i as int]);
        }
        let c = v[i];
        if !('0' <= c && c <= '9') {
            return Err(IntErrorKind::InvalidDigit);
        }
        let d = ((c as u32) - ('0' as u32)) as u64;
        if d > max || acc > (max - d) / 10 {
            proof {
                if d <= max {
                    assert(acc * 10 + d > max) by (nonlinear_arith)
                        requires
                            acc > (max - d) / 10,
                            d <= max,
                    ;
                }
                assert(digit_val(c) == d);
            }
            return Err(IntErrorKind::PosOverflow);
        }
        proof {
            assert(acc * 10 + d <= max) by (nonlinear_arith)
                requires
                    acc <= (max - d) / 10,
                    d <= max,
            ;
        }
        acc = acc * 10 + d;
        i += 1;
    }
    proof {
        assert(v@.skip(v.len() as int) =~= Seq::<char>::empty());
        lemma_scan_bound(ds, 0, max as nat);
    }
    Ok(acc)
}

/// The boolean that `value` names: `true`, `1`, `yes` or `false`, `0`, `no`
/// (case-insensitive).
pub open spec fn bool_named(value: Seq<char>) -> Option<bool> {
    let k = ascii_lower(value);
    if k == "true"@ || k == "1"@ || k == "yes"@ {
        Some(true)
    } else if k == "false"@ || k == "0"@ || k == "no"@ {
        Some(false)
    } else {
        None
    }
}

/// `None` for an empty value, the value otherwise.
pub open spec fn opt_str_spec(value: Seq<char>) -> Option<Seq<char>> {
    if value.len() == 0 {
        None
    } else {
        Some(value)
    }
}

/// An optional text: `None` when `value` is empty.
pub fn opt_str(value: &str) -> (r: Option<String>)
    ensures
        r.deep_view() == opt_str_spec(value@),
{
    if value.is_empty() {
        None
    } else {
        Some(value.to_string())
    }
}

/// The DNS mode that `value` names (case-insensitive).
pub open spec fn dns_mode_named(value: Seq<char>) -> Option<DnsMode> {
    let k = ascii_lower(value);
    if k == "system_only"@ || k == "system"@ {
        Some(DnsMode::SystemOnly)
    } else if k == "doh_only"@ || k == "doh"@ {
        Some(DnsMode::DohOnly)
    } else if k == "automatic"@ || k == "auto"@ {
        Some(DnsMode::Automatic)
    } else if k == "disabled"@ || k == "off"@ {
        Some(DnsMode::Disabled)
    } else {
        None
    }
}

// ---------------------------------------------------------------------------
// Settings
// ---------------------------------------------------------------------------

/// Why `config set` refused a `key=value` pair.
#[derive(Clone, Debug)]
pub enum SettingError {
    /// The argument has no `=`.
    MissingEquals(String),
    /// The key is not a configuration key.
    UnknownKey(String),
    /// The value of a numeric key is not a number of the key's type.
    InvalidNumber { key: String, kind: IntErrorKind },
    /// The value of a boolean key is not a boolean.
    InvalidBool { key: String, value: String },
    /// The value of `dns_mode` is not a mode.
    InvalidDnsMode(String),
}

/// A refusal, as plain values.
pub enum SettingErrorView {
    MissingEquals(Seq<char>),
    UnknownKey(Seq<char>),
    InvalidNumber(Seq<char>, IntErrorKind),
    InvalidBool(Seq<char>, Seq<char>),
    InvalidDnsMode(Seq<char>),
}

impl View for SettingError {
    type V = SettingErrorView;

    open spec fn view(&self) -> SettingErrorView {
        match self {
            SettingError::MissingEquals(s) => SettingErrorView::MissingEquals(s@),
            SettingError::UnknownKey(s) => SettingErrorView::UnknownKey(s@),
            SettingError::InvalidNumber { key, kind } => SettingErrorView::InvalidNumber(key@, *kind),
            SettingError::InvalidBool { key, value } => SettingErrorView::InvalidBool(key@, value@),
            SettingError::InvalidDnsMode(s) => SettingErrorView::InvalidDnsMode(s@),
        }
    }
}

impl SettingError {
    /// The message shown for this refusal.
    pub fn message(&self) -> (r: String)
        ensures
            r@ == (match self@ {
                SettingErrorView::MissingEquals(kv) => "Expected key=value, got: "@ + kv,
                SettingErrorView::UnknownKey(k) => "Unknown config key: "@ + k,
                SettingErrorView::InvalidNumber(k, e) => "Invalid value for '"@ + k + "': "@ + (match e {
                    IntErrorKind::Empty => "cannot parse integer from empty string"@,
                    IntErrorKind::InvalidDigit => "invalid digit found in string"@,
                    IntErrorKind::PosOverflow => "number too large to fit in target type"@,
                }),
                SettingErrorView::InvalidBool(k, v) => "Invalid boolean for '"@ + k + "': "@ + v,
                SettingErrorView::InvalidDnsMode(v) => "Invalid dns_mode '"@ + v
                    + "': expected system_only | doh_only | automatic | disabled"@,
            }),
    {
        match self {
            SettingError::MissingEquals(kv) => {
                let mut m = "Expected key=value, got: ".to_string();
                push_str(&mut m, kv.as_str());
                m
            },
            SettingError::UnknownKey(k) => {
                let mut m = "Unknown config key: ".to_string();
                push_str(&mut m, k.as_str());
                m
            },
            SettingError::InvalidNumber { key, kind } => {
                let mut m = "Invalid value for '".to_string();
                push_str(&mut m, key.as_str());
                push_str(&mut m, "': ");
                push_str(&mut m, kind.message());
                m
            },
            SettingError::InvalidBool { key, value } => {
                let mut m = "Invalid boolean for '".to_string();
                push_str(&mut m, key.as_str());
                push_str(&mut m, "': ");
                push_str(&mut m, value.as_str());
                m
            },
            SettingError::InvalidDnsMode(v) => {
                let mut m = "Invalid dns_mode '".to_string();
                push_str(&mut m, v.as_str());
                push_str(&mut m, "': expected system_only | doh_only | automatic | disabled");
                m
            },
        }
    }
}

/// The configuration keys that `config set` knows.
#[derive(Clone, Copy, PartialEq, Eq, Structural, Debug)]
pub enum SettingKey {
    Language,
    ListenAddr,
    WhoisServerOverride,
    DefaultExportFormat,
    ProxyType,
    ProxyHost,
    DefaultTimeout,
    DnsTimeout,
    WhoisTimeout,
    RdapTimeout,
    PauseDuration,
    MaxConcurrent,
    PauseEvery,
    ProxyPort,
    IgnorePrivate,
    AutoRetry,
    CsvHeader,
    ProxyHttp,
    ProxyHttps,
    ProxySocks4,
    ProxySocks5,
    Headless,
    DnsModeKey,
    DohEndpoint,
    DnsSystemTimeout,
    Unknown,
}

/// The key named by a (trimmed) key text.
pub open spec fn setting_key(k: Seq<char>) -> SettingKey {
    if k == "language"@ {
        SettingKey::Language
    } else if k == "listen_addr"@ {
        SettingKey::ListenAddr
    } else if k == "whois_server_override"@ {
        SettingKey::WhoisServerOverride
    } else if k == "default_export_format"@ {
        SettingKey::DefaultExportFormat
    } else if k == "proxy_type"@ {
        SettingKey::ProxyType
    } else if k == "proxy_host"@ {
        SettingKey::ProxyHost
    } else if k == "default_timeout_ms"@ {
        SettingKey::DefaultTimeout
    } else if k == "dns_timeout_ms"@ {
        SettingKey::DnsTimeout
    } else if k == "whois_timeout_ms"@ {
        SettingKey::WhoisTimeout
    } else if k == "rdap_timeout_ms"@ {
        SettingKey::RdapTimeout
    } else if k == "pause_duration_ms"@ {
        SettingKey::PauseDuration
    } else if k == "max_concurrent_lookups"@ {
        SettingKey::MaxConcurrent
    } else if k == "pause_every"@ {
        SettingKey::PauseEvery
    } else if k == "proxy_port"@ {
        SettingKey::ProxyPort
    } else if k == "ignore_private_ips"@ {
        SettingKey::IgnorePrivate
    } else if k == "auto_retry_failed"@ {
        SettingKey::AutoRetry
    } else if k == "csv_with_header"@ {
        SettingKey::CsvHeader
    } else if k == "proxy.http"@ {
        SettingKey::ProxyHttp
    } else if k == "proxy.https"@ {
        SettingKey::ProxyHttps
    } else if k == "proxy.socks4"@ {
        SettingKey::ProxySocks4
    } else if k == "proxy.socks5"@ {
        SettingKey::ProxySocks5
    } else if k == "headless"@ {
        SettingKey::Headless
    } else if k == "dns_mode"@ {
        SettingKey::DnsModeKey
    } else if k == "doh_endpoint"@ {
        SettingKey::DohEndpoint
    } else if k == "dns_system_timeout_ms"@ {
        SettingKey::DnsSystemTimeout
    } else {
        SettingKey::Unknown
    }
}

/// The key named by `k`.
fn classify_key(k: &[char]) -> (r: SettingKey)
    ensures
        r == setting_key(k@),
{
    if eq_lit(k, "language") {
        SettingKey::Language
    } else if eq_lit(k, "listen_addr") {
        SettingKey::ListenAddr
    } else if eq_lit(k, "whois_server_override") {
        SettingKey::WhoisServerOverride
    } else if eq_lit(k, "default_export_format") {
        SettingKey::DefaultExportFormat
    } else if eq_lit(k, "proxy_type") {
        SettingKey::ProxyType
    } else if eq_lit(k, "proxy_host") {
        SettingKey::ProxyHost
    } else if eq_lit(k, "default_timeout_ms") {
        SettingKey::DefaultTimeout
    } else if eq_lit(k, "dns_timeout_ms") {
        SettingKey::DnsTimeout
    } else if eq_lit(k, "whois_timeout_ms") {
        SettingKey::WhoisTimeout
    } else if eq_lit(k, "rdap_timeout_ms") {
        SettingKey::RdapTimeout
    } else if eq_lit(k, "pause_duration_ms") {
        SettingKey::PauseDuration
    } else if eq_lit(k, "max_concurrent_lookups") {
        SettingKey::MaxConcurrent
    } else if eq_lit(k, "pause_every") {
        SettingKey::PauseEvery
    } else if eq_lit(k, "proxy_port") {
        SettingKey::ProxyPort
    } else if eq_lit(k, "ignore_private_ips") {
        SettingKey::IgnorePrivate
    } else if eq_lit(k, "auto_retry_failed") {
        SettingKey::AutoRetry
    } else if eq_lit(k, "csv_with_header") {
        SettingKey::CsvHeader
    } else if eq_lit(k, "proxy.http") {
        SettingKey::ProxyHttp
    } else if eq_lit(k, "proxy.https") {
        SettingKey::ProxyHttps
    } else if eq_lit(k, "proxy.socks4") {
        SettingKey::ProxySocks4
    } else if eq_lit(k, "proxy.socks5") {
        SettingKey::ProxySocks5
    } else if eq_lit(k, "headless") {
        SettingKey::Headless
    } else if eq_lit(k, "dns_mode") {
        SettingKey::DnsModeKey
    } else if eq_lit(k, "doh_endpoint") {
        SettingKey::DohEndpoint
    } else if eq_lit(k, "dns_system_timeout_ms") {
        SettingKey::DnsSystemTimeout
    } else {
        SettingKey::Unknown
    }
}

/// The largest value of a numeric key.
pub open spec fn key_max(which: SettingKey) -> nat {
    match which {
        SettingKey::DefaultTimeout => u64::MAX as nat,
        SettingKey::DnsTimeout => u64::MAX as nat,
        SettingKey::WhoisTimeout => u64::MAX as nat,
        SettingKey::RdapTimeout => u64::MAX as nat,
        SettingKey::PauseDuration => u64::MAX as nat,
        SettingKey::DnsSystemTimeout => u64::MAX as nat,
        SettingKey::MaxConcurrent => u32::MAX as nat,
        SettingKey::PauseEvery => u32::MAX as nat,
        SettingKey::ProxyPort => u16::MAX as nat,
        _ => 0,
    }
}

/// The configuration with the numeric key `which` set to `n`.
pub open spec fn with_number(o: ConfigView, which: SettingKey, n: nat) -> ConfigView {
    match which {
        SettingKey::DefaultTimeout => ConfigView { default_timeout_ms: n as u64, ..o },
        SettingKey::DnsTimeout => ConfigView { dns_timeout_ms: n as u64, ..o },
        SettingKey::WhoisTimeout => ConfigView { whois_timeout_ms: n as u64, ..o },
        SettingKey::RdapTimeout => ConfigView { rdap_timeout_ms: n as u64, ..o },
        SettingKey::PauseDuration => ConfigView { pause_duration_ms: n as u64, ..o },
        SettingKey::DnsSystemTimeout => ConfigView { dns_system_timeout_ms: n as u64, ..o },
        SettingKey::MaxConcurrent => ConfigView { max_concurrent_lookups: n as u32, ..o },
        SettingKey::PauseEvery => ConfigView { pause_every: n as u32, ..o },
        SettingKey::ProxyPort => ConfigView { proxy_port: n as u16, ..o },
        _ => o,
    }
}

/// The configuration after setting `which` (written `raw_key`) to `value`.
pub open spec fn apply_setting(
    o: ConfigView,
    which: SettingKey,
    raw_key: Seq<char>,
    value: Seq<char>,
) -> Result<ConfigView, SettingErrorView> {
    match which {
        SettingKey::Language => Ok(ConfigView { language: value, ..o }),
        SettingKey::ListenAddr => Ok(ConfigView { listen_addr: value, ..o }),
        SettingKey::WhoisServerOverride => Ok(ConfigView { whois_server_override: value, ..o }),
        SettingKey::DefaultExportFormat => Ok(ConfigView { default_export_format: value, ..o }),
        SettingKey::ProxyType => Ok(ConfigView { proxy_type: value, ..o }),
        SettingKey::ProxyHost => Ok(ConfigView { proxy_host: value, ..o }),
        SettingKey::DefaultTimeout => match parse_uint(value, key_max(which)) {
            Ok(n) => Ok(with_number(o, which, n)),
            Err(e) => Err(SettingErrorView::InvalidNumber(raw_key, e)),
        },
        SettingKey::DnsTimeout => match parse_uint(value, key_max(which)) {
            Ok(n) => Ok(with_number(o, which, n)),
            Err(e) => Err(SettingErrorView::InvalidNumber(raw_key, e)),
        },
        SettingKey::WhoisTimeout => match parse_uint(value, key_max(which)) {
            Ok(n) => Ok(with_number(o, which, n)),
            Err(e) => Err(SettingErrorView::InvalidNumber(raw_key, e)),
        },
        SettingKey::RdapTimeout => match parse_uint(value, key_max(which)) {
            Ok(n) => Ok(with_number(o, which, n)),
            Err(e) => Err(SettingErrorView::InvalidNumber(raw_key, e)),
        },
        SettingKey::PauseDuration => match parse_uint(value, key_max(which)) {
            Ok(n) => Ok(with_number(o, which, n)),
            Err(e) => Err(SettingErrorView::InvalidNumber(raw_key, e)),
        },
        SettingKey::MaxConcurrent => match parse_uint(value, key_max(which)) {
            Ok(n) => Ok(with_number(o, which, n)),
            Err(e) => Err(SettingErrorView::InvalidNumber(raw_key, e)),
        },
        SettingKey::PauseEvery => match parse_uint(value, key_max(which)) {
            Ok(n) => Ok(with_number(o, which, n)),
            Err(e) => Err(SettingErrorView::InvalidNumber(raw_key, e)),
        },
        SettingKey::ProxyPort => match parse_uint(value, key_max(which)) {
            Ok(n) => Ok(with_number(o, which, n)),
            Err(e) => Err(SettingErrorView::InvalidNumber(raw_key, e)),
        },
        SettingKey::IgnorePrivate => match bool_named(value) {
            Some(b) => Ok(ConfigView { ignore_private_ips: b, ..o }),
            None => Err(SettingErrorView::InvalidBool(raw_key, value)),
        },
        SettingKey::AutoRetry => match bool_named(value) {
            Some(b) => Ok(ConfigView { auto_retry_failed: b, ..o }),
            None => Err(SettingErrorView::InvalidBool(raw_key, value)),
        },
        SettingKey::CsvHeader => match bool_named(value) {
            Some(b) => Ok(ConfigView { csv_with_header: b, ..o }),
            None => Err(SettingErrorView::InvalidBool(raw_key, value)),
        },
        SettingKey::ProxyHttp => Ok(ConfigView { proxy_http: opt_str_spec(value), ..o }),
        SettingKey::ProxyHttps => Ok(ConfigView { proxy_https: opt_str_spec(value), ..o }),
        SettingKey::ProxySocks4 => Ok(ConfigView { proxy_socks4: opt_str_spec(value), ..o }),
        SettingKey::ProxySocks5 => Ok(ConfigView { proxy_socks5: opt_str_spec(value), ..o }),
        SettingKey::Headless => match bool_named(value) {
            Some(b) => Ok(ConfigView { headless: b, ..o }),
            None => Err(SettingErrorView::InvalidBool(raw_key, value)),
        },
        SettingKey::DnsModeKey => match dns_mode_named(value) {
            Some(m) => Ok(ConfigView { dns_mode: m, ..o }),
            None => Err(SettingErrorView::InvalidDnsMode(value)),
        },
        SettingKey::DohEndpoint => Ok(ConfigView { doh_endpoint: value, ..o }),
        SettingKey::DnsSystemTimeout => match parse_uint(value, key_max(which)) {
            Ok(n) => Ok(with_number(o, which, n)),
            Err(e) => Err(SettingErrorView::InvalidNumber(raw_key, e)),
        },
        SettingKey::Unknown => Err(SettingErrorView::UnknownKey(raw_key)),
    }
}

/// The configuration after `config set kv`: the key is the text before the
/// first `=` (trimmed), the value the text after it.
pub open spec fn apply_kv(o: ConfigView, kv: Seq<char>) -> Result<ConfigView, SettingErrorView> {
    match split_once_char(kv, '=') {
        None => Err(SettingErrorView::MissingEquals(kv)),
        Some((k, v)) => apply_setting(o, setting_key(trim(k)), k, v),
    }
}

/// Parses a boolean value.
pub fn parse_bool_value(value: &str) -> (r: Option<bool>)
    ensures
        r == bool_named(value@),
{
    let v = chars_of(value);
    let k = lower_vec(&v);
    if eq_lit(&k, "true") || eq_lit(&k, "1") || eq_lit(&k, "yes") {
        Some(true)
    } else if eq_lit(&k, "false") || eq_lit(&k, "0") || eq_lit(&k, "no") {
        Some(false)
    } else {
        None
    }
}

/// Parses a boolean value of the key `key`.
pub fn parse_bool(value: &str, key: &str) -> (r: Result<bool, SettingError>)
    ensures
        match bool_named(value@) {
            Some(b) => r matches Ok(x) && x == b,
            None => r matches Err(e) && e@ == SettingErrorView::InvalidBool(key@, value@),
        },
{
    match parse_bool_value(value) {
        Some(b) => Ok(b),
        None => Err(SettingError::InvalidBool { key: key.to_string(), value: value.to_string() }),
    }
}

/// Parses an unsigned value of the key `key`, no larger than `max`.
pub fn parse_field(value: &str, key: &str, max: u64) -> (r: Result<u64, SettingError>)
    ensures
        match parse_uint(value@, max as nat) {
            Ok(n) => r matches Ok(x) && x == n,
            Err(e) => r matches Err(x) && x@ == SettingErrorView::InvalidNumber(key@, e),
        },
{
    match parse_uint_exec(value, max) {
        Ok(n) => Ok(n),
        Err(e) => Err(SettingError::InvalidNumber { key: key.to_string(), kind: e }),
    }
}

/// The DNS mode named by `value`.
fn dns_mode_exec(value: &str) -> (r: Option<DnsMode>)
    ensures
        r == dns_mode_named(value@),
{
    let v = chars_of(value);
    let k = lower_vec(&v);
    if eq_lit(&k, "system_only") || eq_lit(&k, "system") {
        Some(DnsMode::SystemOnly)
    } else if eq_lit(&k, "doh_only") || eq_lit(&k, "doh") {
        Some(DnsMode::DohOnly)
    } else if eq_lit(&k, "automatic") || eq_lit(&k, "auto") {
        Some(DnsMode::Automatic)
    } else if eq_lit(&k, "disabled") || eq_lit(&k, "off") {
        Some(DnsMode::Disabled)
    } else {
        None
    }
}

pub open spec fn is_text_key(w: SettingKey) -> bool {
    w == SettingKey::Language || w == SettingKey::ListenAddr || w == SettingKey::WhoisServerOverride || w == SettingKey::DefaultExportFormat || w == SettingKey::ProxyType || w == SettingKey::ProxyHost || w == SettingKey::DohEndpoint
}

pub open spec fn is_num_key(w: SettingKey) -> bool {
    w == SettingKey::DefaultTimeout || w == SettingKey::DnsTimeout || w == SettingKey::WhoisTimeout || w == SettingKey::RdapTimeout || w == SettingKey::PauseDuration || w == SettingKey::DnsSystemTimeout || w == SettingKey::MaxConcurrent || w == SettingKey::PauseEvery || w == SettingKey::ProxyPort
}

pub open spec fn is_flag_key(w: SettingKey) -> bool {
    w == SettingKey::IgnorePrivate || w == SettingKey::AutoRetry || w == SettingKey::CsvHeader || w == SettingKey::Headless
}

pub open spec fn is_proxy_key(w: SettingKey) -> bool {
    w == SettingKey::ProxyHttp || w == SettingKey::ProxyHttps || w == SettingKey::ProxySocks4 || w == SettingKey::ProxySocks5
}

fn set_text(config: &mut AppConfig, which: SettingKey, value: &str)
    requires
        is_text_key(which),
    ensures
        apply_setting(old(config)@, which, Seq::empty(), value@) == Ok::<ConfigView, SettingErrorView>(final(config)@),
{
    match which {
        SettingKey::Language => {
            config.language = value.to_string();
        },
        SettingKey::ListenAddr => {
            config.listen_addr = value.to_string();
        },
        SettingKey::WhoisServerOverride => {
            config.whois_server_override = value.to_string();
        },
        SettingKey::DefaultExportFormat => {
            config.default_export_format = value.to_string();
        },
        SettingKey::ProxyType => {
            config.proxy_type = value.to_string();
        },
        SettingKey::ProxyHost => {
            config.proxy_host = value.to_string();
        },
        SettingKey::DohEndpoint => {
            config.doh_endpoint = value.to_string();
        },
        _ => {},
    }
    proof {
        assert(config@ =~= apply_setting(old(config)@, which, Seq::empty(), value@)->Ok_0);
    }
}

fn key_max_exec(which: SettingKey) -> (r: u64)
    ensures
        r as nat == key_max(which),
{
    match which {
        SettingKey::DefaultTimeout => u64::MAX as u64,
        SettingKey::DnsTimeout => u64::MAX as u64,
        SettingKey::WhoisTimeout => u64::MAX as u64,
        SettingKey::RdapTimeout => u64::MAX as u64,
        SettingKey::PauseDuration => u64::MAX as u64,
        SettingKey::DnsSystemTimeout => u64::MAX as u64,
        SettingKey::MaxConcurrent => u32::MAX as u64,
        SettingKey::PauseEvery => u32::MAX as u64,
        SettingKey::ProxyPort => u16::MAX as u64,
        _ => 0,
    }
}

fn assign_number(config: &mut AppConfig, which: SettingKey, n: u64)
    requires
        is_num_key(which),
        n <= key_max(which),
    ensures
        final(config)@ == with_number(old(config)@, which, n as nat),
{
    match which {
        SettingKey::DefaultTimeout => {
            config.default_timeout_ms = n as u64;
        },
        SettingKey::DnsTimeout => {
            config.dns_timeout_ms = n as u64;
        },
        SettingKey::WhoisTimeout => {
            config.whois_timeout_ms = n as u64;
        },
        SettingKey::RdapTimeout => {
            config.rdap_timeout_ms = n as u64;
        },
        SettingKey::PauseDuration => {
            config.pause_duration_ms = n as u64;
        },
        SettingKey::DnsSystemTimeout => {
            config.dns_system_timeout_ms = n as u64;
        },
        SettingKey::MaxConcurrent => {
            config.max_concurrent_lookups = n as u32;
        },
        SettingKey::PauseEvery => {
            config.pause_every = n as u32;
        },
        SettingKey::ProxyPort => {
            config.proxy_port = n as u16;
        },
        _ => {},
    }
    proof {
        assert(config@ =~= with_number(old(config)@, which, n as nat));
    }
}

fn set_number(config: &mut AppConfig, which: SettingKey, raw_key: &str, value: &str) -> (r: Result<(), SettingError>)
    requires
        is_num_key(which),
    ensures
        match apply_setting(old(config)@, which, raw_key@, value@) {
            Ok(n) => r is Ok && final(config)@ == n,
            Err(e) => r matches Err(x) && x@ == e && final(config)@ == old(config)@,
        },
{
    match parse_uint_exec(value, key_max_exec(which)) {
        Ok(n) => {
            assign_number(config, which, n);
            Ok(())
        },
        Err(e) => Err(SettingError::InvalidNumber { key: raw_key.to_string(), kind: e }),
    }
}

fn set_flag(config: &mut AppConfig, which: SettingKey, raw_key: &str, value: &str) -> (r: Result<(), SettingError>)
    requires
        is_flag_key(which),
    ensures
        match apply_setting(old(config)@, which, raw_key@, value@) {
            Ok(n) => r is Ok && final(config)@ == n,
            Err(e) => r matches Err(x) && x@ == e && final(config)@ == old(config)@,
        },
{
    match which {
        SettingKey::IgnorePrivate => {
            match parse_bool_value(value) {
                Some(b) => {
                    config.ignore_private_ips = b;
                },
                None => {
                    return Err(SettingError::InvalidBool { key: raw_key.to_string(), value: value.to_string() });
                },
            }
        },
        SettingKey::AutoRetry => {
            match parse_bool_value(value) {
                Some(b) => {
                    config.auto_retry_failed = b;
                },
                None => {
                    return Err(SettingError::InvalidBool { key: raw_key.to_string(), value: value.to_string() });
                },
            }
        },
        SettingKey::CsvHeader => {
            match parse_bool_value(value) {
                Some(b) => {
                    config.csv_with_header = b;
                },
                None => {
                    return Err(SettingError::InvalidBool { key: raw_key.to_string(), value: value.to_string() });
                },
            }
        },
        SettingKey::Headless => {
            match parse_bool_value(value) {
                Some(b) => {
                    config.headless = b;
                },
                None => {
                    return Err(SettingError::InvalidBool { key: raw_key.to_string(), value: value.to_string() });
                },
            }
        },
        _ => {},
    }
    proof {
        assert(config@ =~= apply_setting(old(config)@, which, raw_key@, value@)->Ok_0);
    }
    Ok(())
}

fn set_proxy(config: &mut AppConfig, which: SettingKey, value: &str)
    requires
        is_proxy_key(which),
    ensures
        apply_setting(old(config)@, which, Seq::empty(), value@) == Ok::<ConfigView, SettingErrorView>(final(config)@),
{
    match which {
        SettingKey::ProxyHttp => {
            config.proxy.http = opt_str(value);
        },
        SettingKey::ProxyHttps => {
            config.proxy.https = opt_str(value);
        },
        SettingKey::ProxySocks4 => {
            config.proxy.socks4 = opt_str(value);
        },
        SettingKey::ProxySocks5 => {
            config.proxy.socks5 = opt_str(value);
        },
        _ => {},
    }
    proof {
        assert(config@ =~= apply_setting(old(config)@, which, Seq::empty(), value@)->Ok_0);
    }
}

/// Sets `which` to `value`.
fn set_value(config: &mut AppConfig, which: SettingKey, raw_key: &str, value: &str) -> (r: Result<(), SettingError>)
    ensures
        match apply_setting(old(config)@, which, raw_key@, value@) {
            Ok(n) => r is Ok && final(config)@ == n,
            Err(e) => r matches Err(x) && x@ == e && final(config)@ == old(config)@,
        },
{
    if is_text(which) {
        set_text(config, which, value);
        Ok(())
    } else if is_number(which) {
        set_number(config, which, raw_key, value)
    } else if is_flag(which) {
        set_flag(config, which, raw_key, value)
    } else if is_proxy(which) {
        set_proxy(config, which, value);
        Ok(())
    } else if which == SettingKey::DnsModeKey {
        match dns_mode_exec(value) {
            Some(m) => {
                config.dns_mode = m;
                proof {
                    assert(config@ =~= apply_setting(old(config)@, which, raw_key@, value@)->Ok_0);
                }
                Ok(())
            },
            None => Err(SettingError::InvalidDnsMode(value.to_string())),
        }
    } else {
        Err(SettingError::UnknownKey(raw_key.to_string()))
    }
}

fn is_text(which: SettingKey) -> (r: bool)
    ensures
        r == is_text_key(which),
{
    which == SettingKey::Language || which == SettingKey::ListenAddr || which == SettingKey::WhoisServerOverride || which == SettingKey::DefaultExportFormat || which == SettingKey::ProxyType || which == SettingKey::ProxyHost || which == SettingKey::DohEndpoint
}

fn is_number(which: SettingKey) -> (r: bool)
    ensures
        r == is_num_key(which),
{
    which == SettingKey::DefaultTimeout || which == SettingKey::DnsTimeout || which == SettingKey::WhoisTimeout || which == SettingKey::RdapTimeout || which == SettingKey::PauseDuration || which == SettingKey::DnsSystemTimeout || which == SettingKey::MaxConcurrent || which == SettingKey::PauseEvery || which == SettingKey::ProxyPort
}

fn is_flag(which: SettingKey) -> (r: bool)
    ensures
        r == is_flag_key(which),
{
    which == SettingKey::IgnorePrivate || which == SettingKey::AutoRetry || which == SettingKey::CsvHeader || which == SettingKey::Headless
}

fn is_proxy(which: SettingKey) -> (r: bool)
    ensures
        r == is_proxy_key(which),
{
    which == SettingKey::ProxyHttp || which == SettingKey::ProxyHttps || which == SettingKey::ProxySocks4 || which == SettingKey::ProxySocks5
}

/// Applies a `key=value` pair to `config`. On refusal the configuration is
/// left unchanged.
pub fn apply_key_value(config: &mut AppConfig, kv: &str) -> (r: Result<(), SettingError>)
    ensures
        match apply_kv(old(config)@, kv@) {
            Ok(n) => r is Ok && final(config)@ == n,
            Err(e) => r matches Err(x) && x@ == e && final(config)@ == old(config)@,
        },
{
    let v = chars_of(kv);
    match split_once_char_exec(&v, '=') {
        None => Err(SettingError::MissingEquals(kv.to_string())),
        Some((k, val)) => {
            let kt = trim_vec(&k);
            let which = classify_key(&kt);
            let raw_key = string_of(&k);
            let value = string_of(&val);
            set_value(config, which, raw_key.as_str(), value.as_str())
        },
    }
}

} // verus!
