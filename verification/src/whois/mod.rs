pub mod client;
pub mod enrichment;
pub mod parse;
pub mod referral;

pub use client::WhoisClient;
pub use enrichment::enrich_from_whois_raw;
pub use parse::ParsedWhois;
