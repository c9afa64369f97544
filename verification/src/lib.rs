//! IP and host name intelligence: target cleaning, RDAP and WHOIS parsing,
//! record enrichment and export.
use vstd::prelude::*;

pub mod bgp;
pub mod cache;
pub mod cli;
pub mod config;
pub mod dates;
pub mod dns;
pub mod export;
pub mod geoip;
pub mod i18n;
pub mod json;
pub mod lookup;
pub mod metrics;
pub mod models;
pub mod net;
pub mod rdap;
pub mod retry;
pub mod reverse;
pub mod server;
pub mod service;
pub mod text;
pub mod ui_config;
pub mod utils;
pub mod whois;

verus! {}
