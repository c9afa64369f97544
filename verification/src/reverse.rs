//! Reverse IP: the domains that passive sources attribute to an address,
//! merged per domain with the sources that reported them.
use vstd::prelude::*;

use crate::json::{field_str, Json};
use crate::text::{
    chars_of, contains_char, eq_chars, eq_lit, lemma_lines_end, lines, next_line, slice_vec,
    split_char, split_pieces, starts_with, starts_with_lit, string_of, trim, trim_vec,
};

verus! {

// ---------------------------------------------------------------------------
// Source answers
// ---------------------------------------------------------------------------

/// The domains of a HackerTarget answer: nothing when it starts with
/// `error` or reads `No Records Found`, otherwise its trimmed non-empty lines
/// that do not start with `error`.
pub open spec fn hackertarget_spec(body: Seq<char>) -> Seq<Seq<char>> {
    if starts_with(body, "error"@) || trim(body) == "No Records Found"@ {
        seq![]
    } else {
        keep_lines(lines(body))
    }
}

/// The trimmed lines worth keeping.
pub open spec fn keep_lines(ls: Seq<Seq<char>>) -> Seq<Seq<char>>
    decreases ls.len(),
{
    if ls.len() == 0 {
        seq![]
    } else {
        let t = trim(ls.last());
        if t.len() > 0 && !starts_with(t, "error"@) {
            keep_lines(ls.drop_last()).push(t)
        } else {
            keep_lines(ls.drop_last())
        }
    }
}

/// Reads a HackerTarget reverse-IP answer (one domain per line).
pub fn parse_hackertarget(body: &str) -> (r: Vec<String>)
    ensures
        r.deep_view() == hackertarget_spec(body@),
{
    let v = chars_of(body);
    let t = trim_vec(&v);
    if starts_with_lit(&v, "error") || eq_lit(&t, "No Records Found") {
        return Vec::new();
    }
    let mut out: Vec<String> = Vec::new();
    let mut pos: usize = 0;
    let ghost all = lines(v@);
    let ghost mut n: int = 0;
    proof {
        assert(v@.skip(0) =~= v@);
        assert(all.take(0) =~= Seq::<Seq<char>>::empty());
    }
    while pos < v.len()
        invariant
            pos <= v.len(),
            all == lines(v@),
            v@ == body@,
            0 <= n <= all.len(),
            all == all.take(n) + lines(v@.skip(pos as int)),
            out.deep_view() == keep_lines(all.take(n)),
        decreases v.len() - pos,
    {
        let (line, next) = next_line(&v, pos);
        proof {
            let rest = lines(v@.skip(pos as int));
            assert(rest[0] == line@);
            assert(all[n] == line@);
            assert(all.take(n + 1).drop_last() =~= all.take(n));
            assert(all =~= all.take(n + 1) + lines(v@.skip(next as int)));
        }
        let lt = trim_vec(&line);
        if lt.len() > 0 && !starts_with_lit(&lt, "error") {
            let ghost before = out.deep_view();
            out.push(string_of(&lt));
            proof {
                assert(out.deep_view() =~= before.push(lt@));
            }
        }
        pos = next;
        proof {
            n = n + 1;
        }
    }
    proof {
        lemma_lines_end(v@);
        assert(all.take(n) =~= all);
    }
    out
}

/// `s` without any number of leading `*.`.
pub open spec fn strip_wildcards(s: Seq<char>) -> Seq<char>
    decreases s.len(),
{
    if s.len() >= 2 && s[0] == '*' && s[1] == '.' {
        strip_wildcards(s.skip(2))
    } else {
        s
    }
}

/// A certificate name worth keeping: not empty, and holding a dot.
pub open spec fn cert_name(raw: Seq<char>) -> Option<Seq<char>> {
    let n = strip_wildcards(trim(raw));
    if n.len() > 0 && n.contains('.') {
        Some(n)
    } else {
        None
    }
}

/// The names of the entries' `name_value` fields, in order, with repeats.
pub open spec fn cert_names(es: Seq<Json>) -> Seq<Seq<char>>
    decreases es.len(),
{
    if es.len() == 0 {
        seq![]
    } else {
        let rest = cert_names(es.drop_last());
        match field_str(es.last(), "name_value"@) {
            Some(v) => rest + names_of(split_char(v, '\n')),
            None => rest,
        }
    }
}

/// The certificate names among `parts`.
pub open spec fn names_of(parts: Seq<Seq<char>>) -> Seq<Seq<char>>
    decreases parts.len(),
{
    if parts.len() == 0 {
        seq![]
    } else {
        match cert_name(parts.last()) {
            Some(n) => names_of(parts.drop_last()).push(n),
            None => names_of(parts.drop_last()),
        }
    }
}

/// `s` without repeats, first occurrences kept in order.
pub open spec fn dedup(s: Seq<Seq<char>>) -> Seq<Seq<char>>
    decreases s.len(),
{
    if s.len() == 0 {
        seq![]
    } else {
        let d = dedup(s.drop_last());
        if d.contains(s.last()) {
            d
        } else {
            d.push(s.last())
        }
    }
}

fn strip_wildcards_exec(v: &[char]) -> (r: Vec<char>)
    ensures
        r@ == strip_wildcards(v@),
{
    let mut i: usize = 0;
    proof {
        assert(v@.skip(0) =~= v@);
    }
    while v.len() - i >= 2 && v[i] == '*' && v[i + 1] == '.'
        invariant
            i <= v.len(),
            strip_wildcards(v@) == strip_wildcards(v@.skip(i as int)),
        decreases v.len() - i,
    {
        proof {
            assert(v@.skip(i as int).skip(2) =~= v@.skip(i + 2));
        }
        i += 2;
    }
    let r = slice_vec(v, i, v.len());
    proof {
        assert(r@ =~= v@.skip(i as int));
    }
    r
}

/// Appends `x` to `out` unless it is already there.
fn push_new(out: &mut Vec<String>, x: &[char])
    ensures
        final(out).deep_view() == (if old(out).deep_view().contains(x@) {
            old(out).deep_view()
        } else {
            old(out).deep_view().push(x@)
        }),
{
    if !crate::text::contains_value(out, x) {
        let ghost before = out.deep_view();
        out.push(string_of(x));
        proof {
            assert(out.deep_view() =~= before.push(x@));
        }
    }
}

/// The distinct certificate names of crt.sh entries (from each entry's
/// `name_value`, split at newlines, trimmed, without leading `*.`), in the
/// order first seen.
pub fn crtsh_names(entries: &Vec<Json>) -> (r: Vec<String>)
    ensures
        r.deep_view() == dedup(cert_names(entries@)),
{
    let mut out: Vec<String> = Vec::new();
    let mut i: usize = 0;
    proof {
        assert(entries@.take(0) =~= Seq::<Json>::empty());
    }
    while i < entries.len()
        invariant
            i <= entries.len(),
            out.deep_view() == dedup(cert_names(entries@.take(i as int))),
        decreases entries.len() - i,
    {
        proof {
            assert(entries@.take(i + 1).drop_last() =~= entries@.take(i as int));
        }
        match entries[i].get_str("name_value") {
            Some(nv) => {
                let parts = split_pieces(nv.as_str(), '\n');
                let ghost base = cert_names(entries@.take(i as int));
                let mut k: usize = 0;
                proof {
                    assert(parts.deep_view().take(0) =~= Seq::<Seq<char>>::empty());
                    assert(base + names_of(parts.deep_view().take(0)) =~= base);
                }
                while k < parts.len()
                    invariant
                        k <= parts.len(),
                        out.deep_view() == dedup(base + names_of(parts.deep_view().take(k as int))),
                    decreases parts.len() - k,
                {
                    proof {
                        assert(parts.deep_view().take(k + 1).drop_last() =~= parts.deep_view().take(k as int));
                    }
                    let pv = chars_of(parts[k].as_str());
                    let t = trim_vec(&pv);
                    let n = strip_wildcards_exec(&t);
                    if n.len() > 0 && contains_char(&n, '.') {
                        let ghost pre = base + names_of(parts.deep_view().take(k as int));
                        push_new(&mut out, &n);
                        proof {
                            assert(base + names_of(parts.deep_view().take(k + 1)) =~= pre.push(n@));
                            assert(pre.push(n@).drop_last() =~= pre);
                        }
                    } else {
                        proof {
                            assert(base + names_of(parts.deep_view().take(k + 1)) =~= base + names_of(parts.deep_view().take(k as int)));
                        }
                    }
                    k += 1;
                }
                proof {
                    assert(parts.deep_view().take(parts.len() as int) =~= parts.deep_view());
                }
            },
            None => {},
        }
        i += 1;
    }
    proof {
        assert(entries@.take(entries.len() as int) =~= entries@);
    }
    out
}

// ---------------------------------------------------------------------------
// Merging
// ---------------------------------------------------------------------------

/// Lexicographic order of character sequences (`str` comparison).
pub open spec fn lex_lt(a: Seq<char>, b: Seq<char>) -> bool
    decreases a.len(),
{
    if a.len() == 0 {
        b.len() > 0
    } else if b.len() == 0 {
        false
    } else if a[0] != b[0] {
        a[0] < b[0]
    } else {
        lex_lt(a.drop_first(), b.drop_first())
    }
}

pub proof fn lemma_lex_transitive(a: Seq<char>, b: Seq<char>, c: Seq<char>)
    requires
        lex_lt(a, b),
        lex_lt(b, c),
    ensures
        lex_lt(a, c),
    decreases a.len(),
{
    if a.len() > 0 && b.len() > 0 && c.len() > 0 {
        if a[0] == b[0] && b[0] == c[0] {
            lemma_lex_transitive(a.drop_first(), b.drop_first(), c.drop_first());
        }
    }
}

pub proof fn lemma_lex_total(a: Seq<char>, b: Seq<char>)
    ensures
        a == b || lex_lt(a, b) || lex_lt(b, a),
    decreases a.len(),
{
    if a.len() > 0 && b.len() > 0 && a[0] == b[0] {
        lemma_lex_total(a.drop_first(), b.drop_first());
        if a.drop_first() == b.drop_first() {
            assert(a =~= seq![a[0]] + a.drop_first());
            assert(b =~= seq![b[0]] + b.drop_first());
        }
    } else if a.len() == 0 && b.len() == 0 {
        assert(a =~= b);
    }
}

/// Lexicographic comparison.
pub fn lex_less(a: &[char], b: &[char]) -> (r: bool)
    ensures
        r == lex_lt(a@, b@),
{
    let mut i: usize = 0;
    proof {
        assert(a@.skip(0) =~= a@);
        assert(b@.skip(0) =~= b@);
    }
    while i < a.len() && i < b.len() && a[i] == b[i]
        invariant
            i <= a.len() && i <= b.len(),
            lex_lt(a@, b@) == lex_lt(a@.skip(i as int), b@.skip(i as int)),
        decreases a.len() - i,
    {
        proof {
            assert(a@.skip(i as int).drop_first() =~= a@.skip(i + 1));
            assert(b@.skip(i as int).drop_first() =~= b@.skip(i + 1));
        }
        i += 1;
    }
    if i == a.len() {
        i < b.len()
    } else if i == b.len() {
        false
    } else {
        a[i] < b[i]
    }
}

/// Whether `s` is strictly increasing.
pub open spec fn strictly_sorted(s: Seq<Seq<char>>) -> bool {
    forall|i: int, j: int| 0 <= i < j < s.len() ==> lex_lt(s[i], s[j])
}

/// Number of occurrences of `d` in `s`.
pub open spec fn count_of(s: Seq<Seq<char>>, d: Seq<char>) -> nat
    decreases s.len(),
{
    if s.len() == 0 {
        0
    } else {
        count_of(s.drop_last(), d) + if s.last() == d {
            1nat
        } else {
            0nat
        }
    }
}

/// `n` copies of `x`.
pub open spec fn repeat(x: Seq<char>, n: nat) -> Seq<Seq<char>> {
    Seq::new(n, |i: int| x)
}

/// A domain with the sources that reported it (a source once per report).
#[derive(Clone, Debug)]
pub struct DomainSources {
    pub domain: String,
    pub sources: Vec<String>,
}

/// A source that failed, with its error.
#[derive(Clone, Debug)]
pub struct SourceError {
    pub source: String,
    pub error: String,
}

/// The domains a source reported (none when it failed).
pub open spec fn reported(r: Result<Vec<String>, String>) -> Seq<Seq<char>> {
    match r {
        Ok(v) => v.deep_view(),
        Err(_) => seq![],
    }
}

/// Inserts `x` into a strictly sorted list unless it is already there.
fn insert_domain(v: &mut Vec<String>, x: &[char])
    requires
        strictly_sorted(old(v).deep_view()),
    ensures
        strictly_sorted(final(v).deep_view()),
        final(v).deep_view().to_set() == old(v).deep_view().to_set().insert(x@),
{
    let ghost s = v.deep_view();
    let mut j: usize = 0;
    while j < v.len() && lex_less(chars_of(v[j].as_str()).as_slice(), x)
        invariant
            j <= v.len(),
            s == v.deep_view(),
            forall|k: int| 0 <= k < j ==> lex_lt(#[trigger] s[k], x@),
        decreases v.len() - j,
    {
        j += 1;
    }
    if j < v.len() {
        let cv = chars_of(v[j].as_str());
        if eq_chars(&cv, x) {
            proof {
                assert(s[j as int] == x@);
                assert(s.to_set().contains(x@));
                assert(s.to_set() =~= s.to_set().insert(x@));
            }
            return ;
        }
        proof {
            assert(cv@ == s[j as int]);
            assert(!lex_lt(s[j as int], x@));
            lemma_lex_total(s[j as int], x@);
            assert(lex_lt(x@, s[j as int]));
        }
    }
    proof {
        assert forall|k: int| j <= k < s.len() implies lex_lt(x@, #[trigger] s[k]) by {
            if k > j {
                assert(lex_lt(s[j as int], s[k]));
                lemma_lex_transitive(x@, s[j as int], s[k]);
            }
        }
    }
    v.insert(j, string_of(x));
    proof {
        let t = v.deep_view();
        assert(t =~= s.take(j as int) + seq![x@] + s.skip(j as int));
        assert forall|a: int, b: int| 0 <= a < b < t.len() implies lex_lt(t[a], t[b]) by {
            if b < j {
            } else if b == j {
            } else if a < j {
                assert(t[b] == s[b - 1]);
                lemma_lex_transitive(t[a], x@, t[b]);
            } else if a == j {
                assert(t[b] == s[b - 1]);
            } else {
                assert(t[a] == s[a - 1] && t[b] == s[b - 1]);
            }
        }
        assert forall|y: Seq<char>| t.to_set().contains(y) <==> s.to_set().insert(x@).contains(y) by {
            if t.to_set().contains(y) {
                let k = choose|k: int| 0 <= k < t.len() && t[k] == y;
                if k < j {
                    assert(s[k] == y);
                } else if k > j {
                    assert(s[k - 1] == y);
                }
            }
            if s.to_set().contains(y) {
                let k = choose|k: int| 0 <= k < s.len() && s[k] == y;
                if k < j {
                    assert(t[k] == y);
                } else {
                    assert(t[k + 1] == y);
                }
            }
            if y == x@ {
                assert(t[j as int] == x@);
            }
        }
        assert(t.to_set() =~= s.to_set().insert(x@));
    }
}

proof fn lemma_push_set(s: Seq<Seq<char>>, x: Seq<char>)
    ensures
        s.push(x).to_set() == s.to_set().insert(x),
{
    assert forall|y: Seq<char>| s.push(x).to_set().contains(y) <==> s.to_set().insert(x).contains(y) by {
        if s.push(x).to_set().contains(y) {
            let k = choose|k: int| 0 <= k < s.push(x).len() && s.push(x)[k] == y;
            if k < s.len() {
                assert(s[k] == y);
            }
        }
        if s.to_set().contains(y) {
            let k = choose|k: int| 0 <= k < s.len() && s[k] == y;
            assert(s.push(x)[k] == y);
        }
        if y == x {
            assert(s.push(x)[s.len() as int] == x);
        }
    }
    assert(s.push(x).to_set() =~= s.to_set().insert(x));
}

/// Adds the domains of `src` to the sorted list.
fn insert_all(v: &mut Vec<String>, src: &Vec<String>)
    requires
        strictly_sorted(old(v).deep_view()),
    ensures
        strictly_sorted(final(v).deep_view()),
        final(v).deep_view().to_set() == old(v).deep_view().to_set() + src.deep_view().to_set(),
{
    let mut i: usize = 0;
    proof {
        assert(src.deep_view().take(0).to_set() =~= Set::<Seq<char>>::empty());
        assert(v.deep_view().to_set() =~= old(v).deep_view().to_set() + src.deep_view().take(0).to_set());
    }
    while i < src.len()
        invariant
            i <= src.len(),
            strictly_sorted(v.deep_view()),
            v.deep_view().to_set() == old(v).deep_view().to_set() + src.deep_view().take(i as int).to_set(),
        decreases src.len() - i,
    {
        let x = chars_of(src[i].as_str());
        insert_domain(v, &x);
        proof {
            assert(src.deep_view().take(i + 1) =~= src.deep_view().take(i as int).push(x@));
            lemma_push_set(src.deep_view().take(i as int), x@);
            assert(v.deep_view().to_set() =~= old(v).deep_view().to_set() + src.deep_view().take(i + 1).to_set());
        }
        i += 1;
    }
    proof {
        assert(src.deep_view().take(src.len() as int) =~= src.deep_view());
    }
}

/// Number of occurrences of `d` in `list`.
fn count_exec(list: &Vec<String>, d: &[char]) -> (r: usize)
    ensures
        r == count_of(list.deep_view(), d@),
{
    let mut n: usize = 0;
    let mut i: usize = 0;
    while i < list.len()
        invariant
            i <= list.len(),
            n == count_of(list.deep_view().take(i as int), d@),
            n <= i,
        decreases list.len() - i,
    {
        proof {
            assert(list.deep_view().take(i + 1).drop_last() =~= list.deep_view().take(i as int));
        }
        let c = chars_of(list[i].as_str());
        if eq_chars(&c, d) {
            n += 1;
        }
        i += 1;
    }
    proof {
        assert(list.deep_view().take(list.len() as int) =~= list.deep_view());
    }
    n
}

/// Appends `n` copies of `x`.
fn push_copies(v: &mut Vec<String>, x: &str, n: usize)
    ensures
        final(v).deep_view() == old(v).deep_view() + repeat(x@, n as nat),
{
    let mut k: usize = 0;
    while k < n
        invariant
            k <= n,
            v.deep_view() == old(v).deep_view() + repeat(x@, k as nat),
        decreases n - k,
    {
        let ghost before = v.deep_view();
        v.push(x.to_string());
        proof {
            assert(v.deep_view() =~= before.push(x@));
            assert(repeat(x@, (k + 1) as nat) =~= repeat(x@, k as nat).push(x@));
            assert(v.deep_view() =~= old(v).deep_view() + repeat(x@, (k + 1) as nat));
        }
        k += 1;
    }
}

/// The failure of a source, if it failed.
fn failure(source: &str, r: &Result<Vec<String>, String>, errors: &mut Vec<SourceError>)
    ensures
        final(errors)@.len() == old(errors)@.len() + (if r is Err { 1int } else { 0int }),
        forall|i: int| 0 <= i < old(errors)@.len() ==> final(errors)@[i] == old(errors)@[i],
        r matches Err(e) ==> final(errors)@.last().source@ == source@ && final(errors)@.last().error@ == e@,
{
    match r {
        Ok(_) => {},
        Err(e) => {
            errors.push(SourceError { source: source.to_string(), error: e.clone() });
        },
    }
}

/// Merges the answers of HackerTarget and crt.sh: one entry per distinct
/// domain, in lexicographic order, listing `hackertarget` once per time it
/// reported the domain, then `crtsh` likewise; and the failures, HackerTarget
/// first.
pub fn merge_reverse(
    ht: Result<Vec<String>, String>,
    crtsh: Result<Vec<String>, String>,
) -> (r: (Vec<DomainSources>, Vec<SourceError>))
    ensures
        ({
            let domains = r.0@.map_values(|e: DomainSources| e.domain@);
            &&& strictly_sorted(domains)
            &&& domains.to_set() == reported(ht).to_set() + reported(crtsh).to_set()
            &&& forall|i: int| 0 <= i < r.0@.len() ==> (#[trigger] r.0@[i]).sources.deep_view()
                == repeat("hackertarget"@, count_of(reported(ht), r.0@[i].domain@)) + repeat(
                "crtsh"@,
                count_of(reported(crtsh), r.0@[i].domain@),
            )
        }),
        r.1@.len() == (if ht is Err { 1int } else { 0int }) + (if crtsh is Err { 1int } else { 0int }),
        ht matches Err(e) ==> r.1@[0].source@ == "hackertarget"@ && r.1@[0].error@ == e@,
        crtsh matches Err(e) ==> r.1@.last().source@ == "crtsh"@ && r.1@.last().error@ == e@,
{
    let empty: Vec<String> = Vec::new();
    let hs: &Vec<String> = match &ht {
        Ok(v) => v,
        Err(_) => &empty,
    };
    let cs: &Vec<String> = match &crtsh {
        Ok(v) => v,
        Err(_) => &empty,
    };
    proof {
        assert(hs.deep_view() == reported(ht));
        assert(cs.deep_view() == reported(crtsh));
    }
    let mut domains: Vec<String> = Vec::new();
    proof {
        assert(domains.deep_view().to_set() =~= Set::<Seq<char>>::empty());
    }
    insert_all(&mut domains, hs);
    insert_all(&mut domains, cs);
    proof {
        assert(domains.deep_view().to_set() =~= reported(ht).to_set() + reported(crtsh).to_set());
    }
    let mut out: Vec<DomainSources> = Vec::new();
    let mut i: usize = 0;
    while i < domains.len()
        invariant
            i <= domains.len(),
            hs.deep_view() == reported(ht),
            cs.deep_view() == reported(crtsh),
            out@.map_values(|e: DomainSources| e.domain@) == domains.deep_view().take(i as int),
            forall|k: int| 0 <= k < out@.len() ==> (#[trigger] out@[k]).sources.deep_view()
                == repeat("hackertarget"@, count_of(reported(ht), out@[k].domain@)) + repeat(
                "crtsh"@,
                count_of(reported(crtsh), out@[k].domain@),
            ),
        decreases domains.len() - i,
    {
        let d = chars_of(domains[i].as_str());
        let nh = count_exec(hs, &d);
        let nc = count_exec(cs, &d);
        let mut sources: Vec<String> = Vec::new();
        proof {
            assert(sources.deep_view() =~= Seq::<Seq<char>>::empty());
            reveal_strlit("hackertarget");
            reveal_strlit("crtsh");
        }
        push_copies(&mut sources, "hackertarget", nh);
        push_copies(&mut sources, "crtsh", nc);
        let ghost before = out@;
        let entry = DomainSources { domain: domains[i].clone(), sources };
        out.push(entry);
        proof {
            assert(out@.map_values(|e: DomainSources| e.domain@) =~= before.map_values(|e: DomainSources| e.domain@).push(d@));
            assert(domains.deep_view().take(i + 1) =~= domains.deep_view().take(i as int).push(d@));
        }
        i += 1;
    }
    proof {
        assert(domains.deep_view().take(domains.len() as int) =~= domains.deep_view());
    }
    let mut errors: Vec<SourceError> = Vec::new();
    failure("hackertarget", &ht, &mut errors);
    failure("crtsh", &crtsh, &mut errors);
    proof {
        reveal_strlit("hackertarget");
        reveal_strlit("crtsh");
    }
    (out, errors)
}

} // verus!
