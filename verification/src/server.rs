//! The local HTTP API's bind address: never beyond the loopback interface.
use vstd::prelude::*;

use crate::text::{chars_of, lemma_rfind_char_at, eq_lit, push_chars, rfind_char, rfind_char_exec, slice_vec, starts_with, starts_with_lit};

verus! {

/// Whether `host` names the loopback interface: `127.0.0.1`, `::1`, or any
/// `127.` address.
pub open spec fn is_loopback_host(host: Seq<char>) -> bool {
    host == "127.0.0.1"@ || host == "::1"@ || starts_with(host, "127."@)
}

/// The address the server binds: `addr` itself when its host (the text
/// before the last colon) is a loopback address, otherwise `127.0.0.1` with
/// the same port; `127.0.0.1:8080` when there is no colon at all.
pub open spec fn sanitized_addr(addr: Seq<char>) -> Seq<char> {
    match rfind_char(addr, ':') {
        Some(pos) => if is_loopback_host(addr.take(pos)) {
            addr
        } else {
            "127.0.0.1:"@ + addr.skip(pos + 1)
        },
        None => "127.0.0.1:8080"@,
    }
}

/// Restricts a listen address to the loopback interface, keeping its port.
pub fn sanitize_listen_addr(addr: &str) -> (r: String)
    ensures
        r@ == sanitized_addr(addr@),
{
    let v = chars_of(addr);
    match rfind_char_exec(&v, ':') {
        Some(pos) => {
            let host = slice_vec(&v, 0, pos);
            let port = slice_vec(&v, pos + 1, v.len());
            proof {
                assert(host@ =~= v@.take(pos as int));
                assert(port@ =~= v@.skip(pos + 1));
            }
            if eq_lit(&host, "127.0.0.1") || eq_lit(&host, "::1") || starts_with_lit(&host, "127.") {
                addr.to_string()
            } else {
                let mut s = "127.0.0.1:".to_string();
                push_chars(&mut s, &port);
                s
            }
        },
        None => "127.0.0.1:8080".to_string(),
    }
}

proof fn lemma_rfind_char_found(s: Seq<char>, c: char)
    requires
        rfind_char(s, c) is Some,
    ensures
        ({
            let i = rfind_char(s, c)->0;
            &&& 0 <= i < s.len()
            &&& s[i] == c
            &&& forall|j: int| i < j < s.len() ==> s[j] != c
        }),
    decreases s.len(),
{
    if s.last() != c {
        let t = s.drop_last();
        lemma_rfind_char_found(t, c);
        let i = rfind_char(t, c)->0;
        assert forall|j: int| i < j < s.len() implies s[j] != c by {
            if j < t.len() {
                assert(s[j] == t[j]);
            }
        }
        assert(s[i] == t[i]);
    }
}

/// Whatever address is configured, the server binds a loopback host: the
/// sanitized address has a colon, and the text before its last colon names
/// the loopback interface.
pub proof fn law_listen_addr_loopback(addr: Seq<char>)
    ensures
        ({
            let r = sanitized_addr(addr);
            &&& rfind_char(r, ':') is Some
            &&& is_loopback_host(r.take(rfind_char(r, ':')->0))
        }),
{
    reveal_strlit("127.0.0.1:");
    reveal_strlit("127.0.0.1:8080");
    reveal_strlit("127.0.0.1");
    let head = "127.0.0.1:"@;
    match rfind_char(addr, ':') {
        Some(pos) => {
            lemma_rfind_char_found(addr, ':');
            if is_loopback_host(addr.take(pos)) {
                lemma_rfind_char_at(addr, ':', pos);
            } else {
                let r = head + addr.skip(pos + 1);
                assert forall|j: int| 9 < j < r.len() implies r[j] != ':' by {
                    assert(r[j] == addr[j - 10 + pos + 1]);
                }
                lemma_rfind_char_at(r, ':', 9);
                assert(r.take(9) =~= "127.0.0.1"@);
            }
        },
        None => {
            let r = "127.0.0.1:8080"@;
            assert forall|j: int| 9 < j < r.len() implies r[j] != ':' by {}
            lemma_rfind_char_at(r, ':', 9);
            assert(r.take(9) =~= "127.0.0.1"@);
        },
    }
}

} // verus!
