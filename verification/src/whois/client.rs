//! The WHOIS client: the decisions of the two-step (IANA, then referral)
//! query. The TCP exchange itself belongs to the caller.
use vstd::prelude::*;

use crate::net::{parse_ip, parse_ip_chars};
use crate::text::{chars_of, rfind_char, rfind_char_exec, slice_vec, string_of, trim, trim_vec};
use crate::whois::parse::{parse_whois, parse_whois_exec, ParsedWhois};
use crate::whois::referral::{has_useful_content, has_useful_content_spec};

verus! {

/// Root WHOIS server, queried first to discover the authoritative server.
pub const IANA_WHOIS: &'static str = "whois.iana.org";

/// WHOIS TCP port.
pub const WHOIS_PORT: u16 = 43;

/// Cap on the size of a response, in bytes.
pub const MAX_RESPONSE_BYTES: usize = 524288;

/// A raw WHOIS response.
#[derive(Clone, Debug)]
pub struct WhoisResult {
    /// Full text of the response.
    pub raw: String,
    /// Host name of the server that answered.
    pub server: String,
}

/// WHOIS client settings.
#[derive(Clone, Debug)]
pub struct WhoisClient {
    pub timeout_ms: u64,
}

/// What is sent to IANA for `target`: an address as it is, otherwise the
/// text after the last dot (the TLD of a domain).
pub open spec fn iana_query_spec(target: Seq<char>) -> Seq<char> {
    let t = trim(target);
    if parse_ip(t) is Some {
        t
    } else {
        match rfind_char(t, '.') {
            Some(i) => t.skip(i + 1),
            None => t,
        }
    }
}

/// The response kept: the referred server's, when there was a referral and
/// its answer has useful content; otherwise IANA's.
pub open spec fn select_spec(
    iana_raw: Seq<char>,
    referral: Option<(Seq<char>, Option<Seq<char>>)>,
) -> (Seq<char>, Seq<char>) {
    match referral {
        Some((server, Some(detailed))) if has_useful_content_spec(detailed) => (detailed, server),
        _ => (iana_raw, "whois.iana.org"@),
    }
}

impl WhoisClient {
    /// A client whose exchanges time out after `timeout_ms` milliseconds.
    pub fn new(timeout_ms: u64) -> (r: WhoisClient)
        ensures
            r.timeout_ms == timeout_ms,
    {
        WhoisClient { timeout_ms }
    }

    /// Parses a raw WHOIS text response into structured fields (RIPE-style
    /// and ARIN-style responses).
    pub fn parse(raw: &str) -> (r: ParsedWhois)
        ensures
            r@ == parse_whois(raw@),
    {
        parse_whois_exec(raw)
    }

    /// The query sent to IANA for `target`.
    pub fn iana_query(target: &str) -> (r: String)
        ensures
            r@ == iana_query_spec(target@),
    {
        let v = chars_of(target);
        let t = trim_vec(&v);
        if parse_ip_chars(&t).is_some() {
            return string_of(&t);
        }
        match rfind_char_exec(&t, '.') {
            Some(i) => {
                let tail = slice_vec(&t, i + 1, t.len());
                proof {
                    assert(tail@ =~= t@.skip(i + 1));
                }
                string_of(&tail)
            },
            None => string_of(&t),
        }
    }

    /// The line sent to a WHOIS server for `query`.
    pub fn request_line(query: &str) -> (r: String)
        ensures
            r@ == query@ + "\r\n"@,
    {
        let mut s = query.to_string();
        s.append("\r\n");
        s
    }

    /// Chooses the response: the referred server's answer when it has useful
    /// content, otherwise the IANA answer (whose server is `whois.iana.org`).
    /// `referral` is the referred server with its answer (`None` when it could
    /// not be reached).
    pub fn select_result(iana_raw: String, referral: Option<(String, Option<String>)>) -> (r:
        WhoisResult)
        ensures
            (r.raw@, r.server@) == select_spec(
                iana_raw@,
                match referral {
                    Some((s, d)) => Some((s@, d.deep_view())),
                    None => None,
                },
            ),
    {
        proof {
            reveal_strlit("whois.iana.org");
        }
        match referral {
            Some((server, Some(detailed))) => {
                if has_useful_content(detailed.as_str()) {
                    return WhoisResult { raw: detailed, server };
                }
            },
            _ => {},
        }
        WhoisResult { raw: iana_raw, server: IANA_WHOIS.to_string() }
    }
}

} // verus!
