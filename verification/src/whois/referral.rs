//! Referral discovery in WHOIS responses.
use vstd::prelude::*;

use crate::text::{
    ascii_lower, chars_of, eq_lit, find_char, find_char_exec, lemma_lines_end, lines, lower_vec,
    next_line, slice_vec, split_once_char, split_once_char_exec, starts_with, starts_with_chars,
    string_of, trim, trim_vec,
};

verus! {

/// `str::trim_start_matches` with a non-empty literal pattern: removes every
/// leading repetition of `p`.
pub open spec fn strip_all_prefix(s: Seq<char>, p: Seq<char>) -> Seq<char>
    decreases s.len(),
{
    if p.len() > 0 && starts_with(s, p) {
        strip_all_prefix(s.skip(p.len() as int), p)
    } else {
        s
    }
}

/// The text before the first `c` (all of `s` when there is none).
pub open spec fn before_char(s: Seq<char>, c: char) -> Seq<char> {
    match find_char(s, c) {
        Some(i) => s.take(i),
        None => s,
    }
}

/// The referred server named by one line, if any.
pub open spec fn refer_of_line(raw: Seq<char>) -> Option<Seq<char>> {
    match split_once_char(trim(raw), ':') {
        None => None,
        Some((k0, v0)) => {
            let key = ascii_lower(trim(k0));
            let v = trim(v0);
            if key == "refer"@ || key == "whois"@ {
                if v.len() > 0 {
                    Some(v)
                } else {
                    None
                }
            } else if key == "referralserver"@ {
                let host = trim(
                    before_char(strip_all_prefix(strip_all_prefix(v, "rwhois://"@), "whois://"@), ':'),
                );
                if host.len() > 0 {
                    Some(host)
                } else {
                    None
                }
            } else {
                None
            }
        },
    }
}

/// The first referral among `ls`.
pub open spec fn first_refer(ls: Seq<Seq<char>>) -> Option<Seq<char>>
    decreases ls.len(),
{
    if ls.len() == 0 {
        None
    } else {
        match refer_of_line(ls[0]) {
            Some(h) => Some(h),
            None => first_refer(ls.drop_first()),
        }
    }
}

/// The server a WHOIS response refers to (`refer:`, `whois:` or
/// `ReferralServer:`), if any.
pub open spec fn extract_refer_spec(raw: Seq<char>) -> Option<Seq<char>> {
    first_refer(lines(raw))
}

/// A line that is neither blank nor a comment.
pub open spec fn is_content_line(l: Seq<char>) -> bool {
    let t = trim(l);
    t.len() > 0 && t[0] != '%' && t[0] != '#'
}

/// Number of content lines among `ls`.
pub open spec fn count_content(ls: Seq<Seq<char>>) -> nat
    decreases ls.len(),
{
    if ls.len() == 0 {
        0
    } else {
        (if is_content_line(ls[0]) {
            1nat
        } else {
            0nat
        }) + count_content(ls.drop_first())
    }
}

/// A response is worth returning when it has more than three content lines.
pub open spec fn has_useful_content_spec(raw: Seq<char>) -> bool {
    count_content(lines(raw)) > 3
}

fn strip_all_prefix_exec(v: &[char], lit: &str) -> (r: Vec<char>)
    requires
        lit@.len() > 0,
    ensures
        r@ == strip_all_prefix(v@, lit@),
{
    let p = chars_of(lit);
    let mut pos: usize = 0;
    proof {
        assert(v@.skip(0) =~= v@);
    }
    loop
        invariant
            pos <= v.len(),
            p@ == lit@,
            p@.len() > 0,
            strip_all_prefix(v@, p@) == strip_all_prefix(v@.skip(pos as int), p@),
        decreases v.len() - pos,
    {
        let rest = slice_vec(v, pos, v.len());
        proof {
            assert(rest@ =~= v@.skip(pos as int));
        }
        if starts_with_chars(&rest, &p) {
            proof {
                assert(rest@.skip(p@.len() as int) =~= v@.skip(pos + p@.len()));
            }
            pos = pos + p.len();
        } else {
            return rest;
        }
    }
}

fn before_char_exec(v: &[char], c: char) -> (r: Vec<char>)
    ensures
        r@ == before_char(v@, c),
{
    match find_char_exec(v, c) {
        Some(i) => {
            let r = slice_vec(v, 0, i);
            proof {
                assert(r@ =~= v@.take(i as int));
            }
            r
        },
        None => slice_vec(v, 0, v.len()),
    }
}

fn refer_of_line_exec(raw: &[char]) -> (r: Option<Vec<char>>)
    ensures
        r.deep_view() == refer_of_line(raw@),
{
    let line = trim_vec(raw);
    match split_once_char_exec(&line, ':') {
        None => None,
        Some((k0, v0)) => {
            let kt = trim_vec(&k0);
            let key = lower_vec(&kt);
            let v = trim_vec(&v0);
            if eq_lit(&key, "refer") || eq_lit(&key, "whois") {
                if v.len() > 0 {
                    Some(v)
                } else {
                    None
                }
            } else if eq_lit(&key, "referralserver") {
                proof {
                    reveal_strlit("rwhois://");
                    reveal_strlit("whois://");
                }
                let a = strip_all_prefix_exec(&v, "rwhois://");
                let b = strip_all_prefix_exec(&a, "whois://");
                let c = before_char_exec(&b, ':');
                let host = trim_vec(&c);
                if host.len() > 0 {
                    Some(host)
                } else {
                    None
                }
            } else {
                None
            }
        },
    }
}

/// Look for a `refer:`, `whois:`, or `ReferralServer:` field in a WHOIS
/// response and return the hostname of the referred server.
pub fn extract_refer(raw: &str) -> (r: Option<String>)
    ensures
        r.deep_view() == extract_refer_spec(raw@),
{
    let v = chars_of(raw);
    let mut pos: usize = 0;
    proof {
        assert(v@.skip(0) =~= v@);
    }
    while pos < v.len()
        invariant
            pos <= v.len(),
            extract_refer_spec(raw@) == first_refer(lines(v@.skip(pos as int))),
            v@ == raw@,
        decreases v.len() - pos,
    {
        let (line, next) = next_line(&v, pos);
        proof {
            let ls = lines(v@.skip(pos as int));
            assert(ls.drop_first() =~= lines(v@.skip(next as int)));
            assert(ls[0] == line@);
        }
        match refer_of_line_exec(&line) {
            Some(h) => {
                return Some(string_of(&h));
            },
            None => {},
        }
        pos = next;
    }
    proof {
        lemma_lines_end(v@);
    }
    None
}

/// Return `true` if the response contains more than three non-comment,
/// non-empty lines (i.e. is worth returning to the caller).
pub fn has_useful_content(raw: &str) -> (r: bool)
    ensures
        r == has_useful_content_spec(raw@),
{
    let v = chars_of(raw);
    let mut pos: usize = 0;
    let mut count: usize = 0;
    proof {
        assert(v@.skip(0) =~= v@);
    }
    while pos < v.len()
        invariant
            pos <= v.len(),
            count <= pos,
            count_content(lines(raw@)) == count + count_content(lines(v@.skip(pos as int))),
            v@ == raw@,
        decreases v.len() - pos,
    {
        let (line, next) = next_line(&v, pos);
        proof {
            let ls = lines(v@.skip(pos as int));
            assert(ls.drop_first() =~= lines(v@.skip(next as int)));
            assert(ls[0] == line@);
        }
        let t = trim_vec(&line);
        if t.len() > 0 && t[0] != '%' && t[0] != '#' {
            count += 1;
        }
        pos = next;
    }
    proof {
        lemma_lines_end(v@);
    }
    count > 3
}

} // verus!
