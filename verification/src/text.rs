//! Character-sequence toolkit: the string operations the rest of the library
//! is built from, each stated over `Seq<char>` and implemented on `Vec<char>`.
use vstd::prelude::*;

verus! {

// ---------------------------------------------------------------------------
// Specifications
// ---------------------------------------------------------------------------

/// `char::is_whitespace`: the Unicode `White_Space` property.
pub open spec fn is_ws(c: char) -> bool {
    ||| ('\u{9}' <= c && c <= '\u{d}')
    ||| c == ' '
    ||| c == '\u{85}'
    ||| c == '\u{a0}'
    ||| c == '\u{1680}'
    ||| ('\u{2000}' <= c && c <= '\u{200a}')
    ||| c == '\u{2028}'
    ||| c == '\u{2029}'
    ||| c == '\u{202f}'
    ||| c == '\u{205f}'
    ||| c == '\u{3000}'
}

/// `s` without its leading whitespace.
pub open spec fn trim_start(s: Seq<char>) -> Seq<char>
    decreases s.len(),
{
    if s.len() > 0 && is_ws(s[0]) {
        trim_start(s.drop_first())
    } else {
        s
    }
}

/// `s` without its trailing whitespace.
pub open spec fn trim_end(s: Seq<char>) -> Seq<char>
    decreases s.len(),
{
    if s.len() > 0 && is_ws(s.last()) {
        trim_end(s.drop_last())
    } else {
        s
    }
}

/// `str::trim`.
pub open spec fn trim(s: Seq<char>) -> Seq<char> {
    trim_end(trim_start(s))
}

/// `char::to_ascii_lowercase`.
pub open spec fn lower_char(c: char) -> char {
    if 'A' <= c && c <= 'Z' {
        (((c as u8) + 32) as u8) as char
    } else {
        c
    }
}

/// `str::to_ascii_lowercase`.
pub open spec fn ascii_lower(s: Seq<char>) -> Seq<char> {
    s.map_values(|c: char| lower_char(c))
}

/// Index of the first occurrence of `c` in `s`.
pub open spec fn find_char(s: Seq<char>, c: char) -> Option<int>
    decreases s.len(),
{
    if s.len() == 0 {
        None
    } else if s[0] == c {
        Some(0)
    } else {
        match find_char(s.drop_first(), c) {
            Some(i) => Some(i + 1),
            None => None,
        }
    }
}

/// Index of the last occurrence of `c` in `s`.
pub open spec fn rfind_char(s: Seq<char>, c: char) -> Option<int>
    decreases s.len(),
{
    if s.len() == 0 {
        None
    } else if s.last() == c {
        Some(s.len() - 1)
    } else {
        rfind_char(s.drop_last(), c)
    }
}

/// `p` is a prefix of `s` (`str::starts_with`).
pub open spec fn starts_with(s: Seq<char>, p: Seq<char>) -> bool {
    p.len() <= s.len() && s.take(p.len() as int) == p
}

/// `p` is a suffix of `s` (`str::ends_with`).
pub open spec fn ends_with(s: Seq<char>, p: Seq<char>) -> bool {
    p.len() <= s.len() && s.skip(s.len() - p.len()) == p
}

/// Index of the first occurrence of the pattern `p` in `s`.
pub open spec fn find_sub(s: Seq<char>, p: Seq<char>) -> Option<int>
    decreases s.len(),
{
    if starts_with(s, p) {
        Some(0)
    } else if s.len() == 0 {
        None
    } else {
        match find_sub(s.drop_first(), p) {
            Some(i) => Some(i + 1),
            None => None,
        }
    }
}

/// `str::contains` with a string pattern.
pub open spec fn contains_sub(s: Seq<char>, p: Seq<char>) -> bool {
    find_sub(s, p) is Some
}

/// `str::split_once` on a character.
pub open spec fn split_once_char(s: Seq<char>, c: char) -> Option<(Seq<char>, Seq<char>)> {
    match find_char(s, c) {
        Some(i) => Some((s.take(i), s.skip(i + 1))),
        None => None,
    }
}

/// `str::split_once` on a string pattern.
pub open spec fn split_once_sub(s: Seq<char>, p: Seq<char>) -> Option<(Seq<char>, Seq<char>)> {
    match find_sub(s, p) {
        Some(i) => Some((s.take(i), s.skip(i + p.len()))),
        None => None,
    }
}

/// Drops one trailing `'\r'`.
pub open spec fn strip_cr(s: Seq<char>) -> Seq<char> {
    if s.len() > 0 && s.last() == '\r' {
        s.drop_last()
    } else {
        s
    }
}

/// `str::lines`: split at `'\n'` (a `"\r\n"` ending loses its `'\r'`);
/// a final line ending does not start an extra empty line.
pub open spec fn lines(s: Seq<char>) -> Seq<Seq<char>>
    decreases s.len(),
{
    if s.len() == 0 {
        seq![]
    } else {
        match find_char(s, '\n') {
            Some(i) => {
                proof {
                    lemma_find_char_some(s, '\n');
                }
                seq![strip_cr(s.take(i))] + lines(s.skip(i + 1))
            },
            None => seq![s],
        }
    }
}

/// `str::split` on a single character (always at least one piece).
pub open spec fn split_char(s: Seq<char>, c: char) -> Seq<Seq<char>>
    decreases s.len(),
{
    match find_char(s, c) {
        Some(i) => {
            proof {
                lemma_find_char_some(s, c);
            }
            seq![s.take(i)] + split_char(s.skip(i + 1), c)
        },
        None => seq![s],
    }
}

/// `[..].join(sep)`.
pub open spec fn join(parts: Seq<Seq<char>>, sep: Seq<char>) -> Seq<char>
    decreases parts.len(),
{
    if parts.len() == 0 {
        seq![]
    } else if parts.len() == 1 {
        parts[0]
    } else {
        join(parts.drop_last(), sep) + sep + parts.last()
    }
}

// ---------------------------------------------------------------------------
// Lemmas
// ---------------------------------------------------------------------------

proof fn lemma_trim_start_head(s: Seq<char>)
    ensures
        trim_start(s).len() == 0 || !is_ws(trim_start(s)[0]),
    decreases s.len(),
{
    if s.len() > 0 && is_ws(s[0]) {
        lemma_trim_start_head(s.drop_first());
    }
}

proof fn lemma_trim_end_prefix(t: Seq<char>)
    ensures
        trim_end(t).len() <= t.len(),
        trim_end(t) =~= t.take(trim_end(t).len() as int),
        trim_end(t).len() == 0 || !is_ws(trim_end(t).last()),
    decreases t.len(),
{
    if t.len() > 0 && is_ws(t.last()) {
        lemma_trim_end_prefix(t.drop_last());
    } else {
        assert(t.take(t.len() as int) =~= t);
    }
}

/// Trimming a trimmed text changes nothing.
pub proof fn lemma_trim_idempotent(s: Seq<char>)
    ensures
        trim(trim(s)) == trim(s),
{
    let t = trim_start(s);
    lemma_trim_start_head(s);
    lemma_trim_end_prefix(t);
    let u = trim_end(t);
    if u.len() > 0 {
        assert(u[0] == t[0]);
    }
    assert(trim_start(u) == u);
    assert(trim_end(u) == u);
}

pub proof fn lemma_trim_start_skip(s: Seq<char>, i: int)
    requires
        0 <= i <= s.len(),
        forall|j: int| 0 <= j < i ==> is_ws(#[trigger] s[j]),
    ensures
        trim_start(s) == trim_start(s.skip(i)),
    decreases i,
{
    if i == 0 {
        assert(s.skip(0) =~= s);
    } else {
        assert(is_ws(s[0]));
        let t = s.drop_first();
        assert forall|j: int| 0 <= j < i - 1 implies is_ws(#[trigger] t[j]) by {
            assert(t[j] == s[j + 1]);
        }
        lemma_trim_start_skip(t, i - 1);
        assert(t.skip(i - 1) =~= s.skip(i));
    }
}

pub proof fn lemma_trim_end_take(s: Seq<char>, k: int)
    requires
        0 <= k <= s.len(),
        forall|j: int| k <= j < s.len() ==> is_ws(#[trigger] s[j]),
    ensures
        trim_end(s) == trim_end(s.take(k)),
    decreases s.len() - k,
{
    if k == s.len() {
        assert(s.take(k) =~= s);
    } else {
        assert(is_ws(s.last()));
        let t = s.drop_last();
        lemma_trim_end_take(t, k);
        assert(t.take(k) =~= s.take(k));
    }
}

pub proof fn lemma_find_char_at(s: Seq<char>, c: char, i: int)
    requires
        0 <= i < s.len(),
        s[i] == c,
        forall|j: int| 0 <= j < i ==> s[j] != c,
    ensures
        find_char(s, c) == Some(i),
    decreases i,
{
    if i > 0 {
        let t = s.drop_first();
        assert(t[i - 1] == s[i]);
        assert forall|j: int| 0 <= j < i - 1 implies t[j] != c by {
            assert(t[j] == s[j + 1]);
        }
        lemma_find_char_at(t, c, i - 1);
    }
}

pub proof fn lemma_find_char_none(s: Seq<char>, c: char)
    requires
        forall|j: int| 0 <= j < s.len() ==> s[j] != c,
    ensures
        find_char(s, c) is None,
    decreases s.len(),
{
    if s.len() > 0 {
        let t = s.drop_first();
        assert forall|j: int| 0 <= j < t.len() implies t[j] != c by {
            assert(t[j] == s[j + 1]);
        }
        lemma_find_char_none(t, c);
    }
}

pub proof fn lemma_find_char_some(s: Seq<char>, c: char)
    ensures
        match find_char(s, c) {
            Some(i) => 0 <= i < s.len() && s[i] == c && forall|j: int| 0 <= j < i ==> s[j] != c,
            None => forall|j: int| 0 <= j < s.len() ==> s[j] != c,
        },
    decreases s.len(),
{
    if s.len() > 0 {
        let t = s.drop_first();
        lemma_find_char_some(t, c);
        if s[0] != c {
            match find_char(t, c) {
                Some(i) => {
                    assert forall|j: int| 0 <= j < i + 1 implies s[j] != c by {
                        if j > 0 {
                            assert(s[j] == t[j - 1]);
                        }
                    }
                },
                None => {
                    assert forall|j: int| 0 <= j < s.len() implies s[j] != c by {
                        if j > 0 {
                            assert(s[j] == t[j - 1]);
                        }
                    }
                },
            }
        }
    }
}

pub proof fn lemma_rfind_char_at(s: Seq<char>, c: char, i: int)
    requires
        0 <= i < s.len(),
        s[i] == c,
        forall|j: int| i < j < s.len() ==> s[j] != c,
    ensures
        rfind_char(s, c) == Some(i),
    decreases s.len(),
{
    if i < s.len() - 1 {
        let t = s.drop_last();
        lemma_rfind_char_at(t, c, i);
    }
}

pub proof fn lemma_rfind_char_none(s: Seq<char>, c: char)
    requires
        forall|j: int| 0 <= j < s.len() ==> s[j] != c,
    ensures
        rfind_char(s, c) is None,
    decreases s.len(),
{
    if s.len() > 0 {
        lemma_rfind_char_none(s.drop_last(), c);
    }
}

pub proof fn lemma_find_sub_at(s: Seq<char>, p: Seq<char>, i: int)
    requires
        0 <= i <= s.len(),
        starts_with(s.skip(i), p),
        forall|j: int| 0 <= j < i ==> !starts_with(#[trigger] s.skip(j), p),
    ensures
        find_sub(s, p) == Some(i),
    decreases i,
{
    if i == 0 {
        assert(s.skip(0) =~= s);
    } else {
        assert(s.skip(0) =~= s);
        assert(!starts_with(s.skip(0), p));
        let t = s.drop_first();
        assert forall|j: int| 0 <= j < i - 1 implies !starts_with(#[trigger] t.skip(j), p) by {
            assert(t.skip(j) =~= s.skip(j + 1));
        }
        assert(t.skip(i - 1) =~= s.skip(i));
        lemma_find_sub_at(t, p, i - 1);
    }
}

pub proof fn lemma_find_sub_none(s: Seq<char>, p: Seq<char>)
    requires
        forall|j: int| 0 <= j <= s.len() ==> !starts_with(#[trigger] s.skip(j), p),
    ensures
        find_sub(s, p) is None,
    decreases s.len(),
{
    assert(s.skip(0) =~= s);
    if s.len() > 0 {
        let t = s.drop_first();
        assert forall|j: int| 0 <= j <= t.len() implies !starts_with(#[trigger] t.skip(j), p) by {
            assert(t.skip(j) =~= s.skip(j + 1));
        }
        lemma_find_sub_none(t, p);
    }
}

pub proof fn lemma_join_push(parts: Seq<Seq<char>>, sep: Seq<char>, x: Seq<char>)
    ensures
        join(parts.push(x), sep) == if parts.len() == 0 { x } else { join(parts, sep) + sep + x },
{
    assert(parts.push(x).drop_last() =~= parts);
}

// ---------------------------------------------------------------------------
// Executable operations
// ---------------------------------------------------------------------------

/// Appends one character to a `String` (std's `String::push`).
#[verifier::external_body]
pub(crate) fn push_char(s: &mut String, c: char)
    ensures
        final(s)@ == old(s)@.push(c),
{
    s.push(c);
}

/// The characters of `s`, in order.
pub fn chars_of(s: &str) -> (v: Vec<char>)
    ensures
        v@ == s@,
{
    let mut v: Vec<char> = Vec::new();
    for c in it: s.chars()
        invariant
            v@ == it.seq().take(it.index() as int),
    {
        v.push(c);
    }
    v
}

/// A `String` holding exactly the characters of `v`.
pub fn string_of(v: &[char]) -> (s: String)
    ensures
        s@ == v@,
{
    let mut s = String::new();
    let mut i: usize = 0;
    while i < v.len()
        invariant
            i <= v.len(),
            s@ == v@.take(i as int),
        decreases v.len() - i,
    {
        push_char(&mut s, v[i]);
        proof {
            assert(v@.take(i + 1) == v@.take(i as int).push(v@[i as int]));
        }
        i += 1;
    }
    proof {
        assert(v@.take(v.len() as int) == v@);
    }
    s
}

/// Appends the characters of `v` to `s`.
pub fn push_chars(s: &mut String, v: &[char])
    ensures
        final(s)@ == old(s)@ + v@,
{
    let mut i: usize = 0;
    while i < v.len()
        invariant
            i <= v.len(),
            s@ == old(s)@ + v@.take(i as int),
        decreases v.len() - i,
    {
        push_char(s, v[i]);
        proof {
            assert(v@.take(i + 1) == v@.take(i as int).push(v@[i as int]));
            assert(old(s)@ + v@.take(i + 1) =~= (old(s)@ + v@.take(i as int)).push(v@[i as int]));
        }
        i += 1;
    }
    proof {
        assert(v@.take(v.len() as int) == v@);
    }
}

/// Appends the string slice `t` to `s`.
pub fn push_str(s: &mut String, t: &str)
    ensures
        final(s)@ == old(s)@ + t@,
{
    s.append(t);
}

/// `v[lo..hi]` as a new vector.
pub fn slice_vec(v: &[char], lo: usize, hi: usize) -> (r: Vec<char>)
    requires
        lo <= hi <= v.len(),
    ensures
        r@ == v@.subrange(lo as int, hi as int),
{
    let mut r: Vec<char> = Vec::new();
    let mut i = lo;
    while i < hi
        invariant
            lo <= i <= hi <= v.len(),
            r@ == v@.subrange(lo as int, i as int),
        decreases hi - i,
    {
        r.push(v[i]);
        proof {
            assert(v@.subrange(lo as int, i + 1) =~= v@.subrange(lo as int, i as int).push(v@[i as int]));
        }
        i += 1;
    }
    r
}

/// Whitespace test (`char::is_whitespace`).
pub fn is_ws_exec(c: char) -> (b: bool)
    ensures
        b == is_ws(c),
{
    ('\u{9}' <= c && c <= '\u{d}') || c == ' ' || c == '\u{85}' || c == '\u{a0}' || c == '\u{1680}'
        || ('\u{2000}' <= c && c <= '\u{200a}') || c == '\u{2028}' || c == '\u{2029}'
        || c == '\u{202f}' || c == '\u{205f}' || c == '\u{3000}'
}

/// Bounds `(lo, hi)` such that `v[lo..hi]` is `trim(v)`.
pub fn trim_bounds(v: &[char]) -> (r: (usize, usize))
    ensures
        r.0 <= r.1 <= v.len(),
        v@.subrange(r.0 as int, r.1 as int) == trim(v@),
{
    let mut lo: usize = 0;
    while lo < v.len() && is_ws_exec(v[lo])
        invariant
            lo <= v.len(),
            forall|j: int| 0 <= j < lo ==> is_ws(#[trigger] v@[j]),
        decreases v.len() - lo,
    {
        lo += 1;
    }
    let mut hi: usize = v.len();
    while hi > lo && is_ws_exec(v[hi - 1])
        invariant
            lo <= hi <= v.len(),
            forall|j: int| hi <= j < v.len() ==> is_ws(#[trigger] v@[j]),
        decreases hi,
    {
        hi -= 1;
    }
    proof {
        let s = v@;
        lemma_trim_start_skip(s, lo as int);
        let t = s.skip(lo as int);
        if t.len() > 0 {
            assert(t[0] == s[lo as int]);
        }
        assert(trim_start(t) == t);
        let k = hi - lo;
        assert forall|j: int| k <= j < t.len() implies is_ws(#[trigger] t[j]) by {
            assert(t[j] == s[j + lo]);
        }
        lemma_trim_end_take(t, k as int);
        let u = t.take(k as int);
        if u.len() > 0 {
            assert(u.last() == s[hi - 1]);
        }
        assert(trim_end(u) == u);
        assert(u =~= s.subrange(lo as int, hi as int));
    }
    (lo, hi)
}

/// `str::trim`, on characters.
pub fn trim_vec(v: &[char]) -> (r: Vec<char>)
    ensures
        r@ == trim(v@),
{
    let (lo, hi) = trim_bounds(v);
    slice_vec(v, lo, hi)
}

/// `str::to_ascii_lowercase`, on characters.
pub fn lower_vec(v: &[char]) -> (r: Vec<char>)
    ensures
        r@ == ascii_lower(v@),
{
    let mut r: Vec<char> = Vec::new();
    let mut i: usize = 0;
    while i < v.len()
        invariant
            i <= v.len(),
            r@ == ascii_lower(v@.take(i as int)),
        decreases v.len() - i,
    {
        let c = v[i];
        let l = if 'A' <= c && c <= 'Z' {
            char_from_u32_lower(c)
        } else {
            c
        };
        r.push(l);
        proof {
            assert(ascii_lower(v@.take(i + 1)) =~= ascii_lower(v@.take(i as int)).push(lower_char(c)));
        }
        i += 1;
    }
    proof {
        assert(v@.take(v.len() as int) =~= v@);
    }
    r
}

fn char_from_u32_lower(c: char) -> (l: char)
    requires
        'A' <= c && c <= 'Z',
    ensures
        l == lower_char(c),
{
    let b: u8 = (c as u8) + 32;
    b as char
}

/// Whether `v` equals the literal `lit`.
pub fn eq_lit(v: &[char], lit: &str) -> (b: bool)
    ensures
        b == (v@ == lit@),
{
    let l = chars_of(lit);
    eq_chars(v, &l)
}

/// Character-wise equality.
pub fn eq_chars(a: &[char], b: &[char]) -> (r: bool)
    ensures
        r == (a@ == b@),
{
    if a.len() != b.len() {
        return false;
    }
    let mut i: usize = 0;
    while i < a.len()
        invariant
            i <= a.len() == b.len(),
            forall|j: int| 0 <= j < i ==> a@[j] == b@[j],
        decreases a.len() - i,
    {
        if a[i] != b[i] {
            return false;
        }
        i += 1;
    }
    proof {
        assert(a@ =~= b@);
    }
    true
}

/// Whether `v` starts with `p`.
pub fn starts_with_chars(v: &[char], p: &[char]) -> (r: bool)
    ensures
        r == starts_with(v@, p@),
{
    if p.len() > v.len() {
        return false;
    }
    let mut i: usize = 0;
    while i < p.len()
        invariant
            i <= p.len() <= v.len(),
            forall|j: int| 0 <= j < i ==> v@[j] == p@[j],
        decreases p.len() - i,
    {
        if v[i] != p[i] {
            proof {
                assert(v@.take(p.len() as int)[i as int] != p@[i as int]);
            }
            return false;
        }
        i += 1;
    }
    proof {
        assert(v@.take(p.len() as int) =~= p@);
    }
    true
}

/// Whether `v` starts with the literal `lit`.
pub fn starts_with_lit(v: &[char], lit: &str) -> (r: bool)
    ensures
        r == starts_with(v@, lit@),
{
    let p = chars_of(lit);
    starts_with_chars(v, &p)
}

/// Index of the first `c` in `v[from..]`, counted from the start of `v`.
pub fn find_char_from(v: &[char], c: char, from: usize) -> (r: Option<usize>)
    requires
        from <= v.len(),
    ensures
        match r {
            Some(i) => from <= i < v.len() && find_char(v@.skip(from as int), c) == Some(i - from),
            None => find_char(v@.skip(from as int), c) is None,
        },
{
    let mut i = from;
    while i < v.len()
        invariant
            from <= i <= v.len(),
            forall|j: int| from <= j < i ==> v@[j] != c,
        decreases v.len() - i,
    {
        if v[i] == c {
            proof {
                let t = v@.skip(from as int);
                assert forall|j: int| 0 <= j < i - from implies t[j] != c by {
                    assert(t[j] == v@[j + from]);
                }
                lemma_find_char_at(t, c, i - from);
            }
            return Some(i);
        }
        i += 1;
    }
    proof {
        let t = v@.skip(from as int);
        assert forall|j: int| 0 <= j < t.len() implies t[j] != c by {
            assert(t[j] == v@[j + from]);
        }
        lemma_find_char_none(t, c);
    }
    None
}

/// Index of the first `c` in `v`.
pub fn find_char_exec(v: &[char], c: char) -> (r: Option<usize>)
    ensures
        match r {
            Some(i) => find_char(v@, c) == Some(i as int),
            None => find_char(v@, c) is None,
        },
        r matches Some(i) ==> i < v.len(),
{
    proof {
        assert(v@.skip(0) =~= v@);
    }
    find_char_from(v, c, 0)
}

/// Index of the last `c` in `v`.
pub fn rfind_char_exec(v: &[char], c: char) -> (r: Option<usize>)
    ensures
        match r {
            Some(i) => rfind_char(v@, c) == Some(i as int),
            None => rfind_char(v@, c) is None,
        },
        r matches Some(i) ==> i < v.len(),
{
    let mut k: usize = v.len();
    while k > 0
        invariant
            k <= v.len(),
            forall|j: int| k <= j < v.len() ==> v@[j] != c,
        decreases k,
    {
        if v[k - 1] == c {
            proof {
                lemma_rfind_char_at(v@, c, k - 1);
            }
            return Some(k - 1);
        }
        k -= 1;
    }
    proof {
        lemma_rfind_char_none(v@, c);
    }
    None
}

/// Index of the first occurrence of `p` in `v`.
pub fn find_sub_exec(v: &[char], p: &[char]) -> (r: Option<usize>)
    ensures
        match r {
            Some(i) => find_sub(v@, p@) == Some(i as int),
            None => find_sub(v@, p@) is None,
        },
        r matches Some(i) ==> i + p.len() <= v.len(),
{
    let mut i: usize = 0;
    loop
        invariant
            i <= v.len(),
            forall|j: int| 0 <= j < i ==> !starts_with(#[trigger] v@.skip(j), p@),
        ensures
            forall|j: int| 0 <= j <= v.len() ==> !starts_with(#[trigger] v@.skip(j), p@),
        decreases v.len() - i,
    {
        let rest = slice_vec(v, i, v.len());
        proof {
            assert(rest@ =~= v@.skip(i as int));
        }
        if starts_with_chars(&rest, p) {
            proof {
                lemma_find_sub_at(v@, p@, i as int);
            }
            return Some(i);
        }
        if i == v.len() {
            break;
        }
        i += 1;
    }
    proof {
        lemma_find_sub_none(v@, p@);
    }
    None
}

/// `str::contains` with a literal pattern.
pub fn contains_lit(v: &[char], lit: &str) -> (r: bool)
    ensures
        r == contains_sub(v@, lit@),
{
    let p = chars_of(lit);
    find_sub_exec(v, &p).is_some()
}

/// Whether `v` contains the character `c`.
pub fn contains_char(v: &[char], c: char) -> (r: bool)
    ensures
        r == (find_char(v@, c) is Some),
        r == v@.contains(c),
{
    proof {
        lemma_find_char_some(v@, c);
    }
    find_char_exec(v, c).is_some()
}

/// `str::split_once` on a character.
pub fn split_once_char_exec(v: &[char], c: char) -> (r: Option<(Vec<char>, Vec<char>)>)
    ensures
        match split_once_char(v@, c) {
            Some((a, b)) => r matches Some((x, y)) && x@ == a && y@ == b,
            None => r is None,
        },
{
    match find_char_exec(v, c) {
        Some(i) => {
            let a = slice_vec(v, 0, i);
            let b = slice_vec(v, i + 1, v.len());
            proof {
                assert(a@ =~= v@.take(i as int));
                assert(b@ =~= v@.skip(i + 1));
            }
            Some((a, b))
        },
        None => None,
    }
}

/// `str::split_once` on a string pattern.
pub fn split_once_sub_exec(v: &[char], p: &[char]) -> (r: Option<(Vec<char>, Vec<char>)>)
    ensures
        match split_once_sub(v@, p@) {
            Some((a, b)) => r matches Some((x, y)) && x@ == a && y@ == b,
            None => r is None,
        },
{
    match find_sub_exec(v, p) {
        Some(i) => {
            let a = slice_vec(v, 0, i);
            let b = slice_vec(v, i + p.len(), v.len());
            proof {
                assert(a@ =~= v@.take(i as int));
                assert(b@ =~= v@.skip(i + p.len()));
            }
            Some((a, b))
        },
        None => None,
    }
}

/// The next line of `v` starting at `pos` (`str::lines`, one step): the line's
/// characters and the position just after its terminator.
pub fn next_line(v: &[char], pos: usize) -> (r: (Vec<char>, usize))
    requires
        pos < v.len(),
    ensures
        pos < r.1 <= v.len(),
        lines(v@.skip(pos as int)) == seq![r.0@] + lines(v@.skip(r.1 as int)),
{
    let ghost s = v@.skip(pos as int);
    match find_char_from(v, '\n', pos) {
        Some(i) => {
            let mut end = i;
            if end > pos && v[end - 1] == '\r' {
                end = end - 1;
            }
            let line = slice_vec(v, pos, end);
            proof {
                assert(s.take(i - pos) =~= v@.subrange(pos as int, i as int));
                assert(s.skip(i - pos + 1) =~= v@.skip(i + 1));
                assert(line@ =~= strip_cr(s.take(i - pos)));
            }
            (line, i + 1)
        },
        None => {
            let line = slice_vec(v, pos, v.len());
            proof {
                assert(line@ =~= s);
                assert(v@.skip(v.len() as int) =~= Seq::<char>::empty());
                assert(lines(v@.skip(v.len() as int)) =~= Seq::<Seq<char>>::empty());
                assert(seq![s] + Seq::<Seq<char>>::empty() =~= seq![s]);
            }
            (line, v.len())
        },
    }
}

/// `lines` of the empty tail.
pub proof fn lemma_lines_end(v: Seq<char>)
    ensures
        lines(v.skip(v.len() as int)) == Seq::<Seq<char>>::empty(),
{
    assert(v.skip(v.len() as int) =~= Seq::<char>::empty());
}

/// Joins `parts` with `sep`.
pub fn join_strings(parts: &Vec<String>, sep: &str) -> (r: String)
    ensures
        r@ == join(parts.deep_view(), sep@),
{
    let mut r = String::new();
    let mut i: usize = 0;
    while i < parts.len()
        invariant
            i <= parts.len(),
            r@ == join(parts.deep_view().take(i as int), sep@),
        decreases parts.len() - i,
    {
        let ghost prev = parts.deep_view().take(i as int);
        if i > 0 {
            push_str(&mut r, sep);
        }
        push_str(&mut r, parts[i].as_str());
        proof {
            lemma_join_push(prev, sep@, parts.deep_view()[i as int]);
            assert(parts.deep_view().take(i + 1) =~= prev.push(parts.deep_view()[i as int]));
        }
        i += 1;
    }
    proof {
        assert(parts.deep_view().take(parts.len() as int) =~= parts.deep_view());
    }
    r
}

/// The decimal digit `d` as a character.
pub open spec fn digit_char(d: nat) -> char {
    ((d + 48) as u8) as char
}

/// Decimal representation of `n` (`u64::to_string`).
pub open spec fn dec(n: nat) -> Seq<char>
    decreases n,
{
    if n < 10 {
        seq![digit_char(n)]
    } else {
        dec(n / 10).push(digit_char(n % 10))
    }
}

/// Decimal digits of `n`.
pub fn dec_chars(n: u64) -> (r: Vec<char>)
    ensures
        r@ == dec(n as nat),
    decreases n,
{
    let d: u8 = (n % 10) as u8;
    let c = (d + 48u8) as char;
    if n < 10 {
        let mut v: Vec<char> = Vec::new();
        v.push(c);
        proof {
            assert(v@ =~= seq![digit_char(n as nat)]);
        }
        v
    } else {
        let mut v = dec_chars(n / 10);
        v.push(c);
        v
    }
}

/// `n.to_string()`.
pub fn dec_string(n: u64) -> (r: String)
    ensures
        r@ == dec(n as nat),
{
    let v = dec_chars(n);
    string_of(&v)
}

/// Whether `list` holds the value `v`.
pub fn contains_value(list: &Vec<String>, v: &[char]) -> (r: bool)
    ensures
        r == list.deep_view().contains(v@),
{
    let s = string_of(v);
    let mut i: usize = 0;
    while i < list.len()
        invariant
            i <= list.len(),
            s@ == v@,
            forall|j: int| 0 <= j < i ==> list.deep_view()[j] != v@,
        decreases list.len() - i,
    {
        let same = list[i].eq(&s);
        if same {
            proof {
                assert(list.deep_view()[i as int] == v@);
            }
            return true;
        }
        i += 1;
    }
    false
}

/// Appends copies of the strings of `src` to `dest`.
pub fn append_strings(dest: &mut Vec<String>, src: &Vec<String>)
    ensures
        final(dest).deep_view() == old(dest).deep_view() + src.deep_view(),
{
    let mut i: usize = 0;
    while i < src.len()
        invariant
            i <= src.len(),
            dest.deep_view() == old(dest).deep_view() + src.deep_view().take(i as int),
        decreases src.len() - i,
    {
        let ghost before = dest.deep_view();
        dest.push(src[i].clone());
        proof {
            assert(dest.deep_view() =~= before.push(src[i as int]@));
            assert(src.deep_view().take(i + 1) =~= src.deep_view().take(i as int).push(src[i as int]@));
            assert(dest.deep_view() =~= old(dest).deep_view() + src.deep_view().take(i + 1));
        }
        i += 1;
    }
    proof {
        assert(src.deep_view().take(src.len() as int) =~= src.deep_view());
    }
}

/// `s.split(c)`: the pieces between occurrences of `c`.
pub fn split_pieces(s: &str, c: char) -> (r: Vec<String>)
    ensures
        r.deep_view() == split_char(s@, c),
{
    let v = chars_of(s);
    let mut out: Vec<String> = Vec::new();
    let mut pos: usize = 0;
    proof {
        assert(v@.skip(0) =~= v@);
        assert(out.deep_view() =~= Seq::<Seq<char>>::empty());
    }
    loop
        invariant_except_break
            split_char(s@, c) == out.deep_view() + split_char(v@.skip(pos as int), c),
        invariant
            pos <= v.len(),
            v@ == s@,
        ensures
            split_char(s@, c) == out.deep_view(),
        decreases v.len() - pos,
    {
        let ghost rest = v@.skip(pos as int);
        let ghost before = out.deep_view();
        match find_char_from(&v, c, pos) {
            Some(i) => {
                let piece = slice_vec(&v, pos, i);
                out.push(string_of(&piece));
                proof {
                    lemma_find_char_some(rest, c);
                    assert(piece@ =~= rest.take(i - pos));
                    assert(rest.skip(i - pos + 1) =~= v@.skip(i + 1));
                    assert(out.deep_view() =~= before.push(piece@));
                    assert(split_char(rest, c) == seq![rest.take(i - pos)] + split_char(v@.skip(i + 1), c));
                    assert(before + split_char(rest, c) =~= out.deep_view() + split_char(v@.skip(i + 1), c));
                }
                pos = i + 1;
            },
            None => {
                let piece = slice_vec(&v, pos, v.len());
                out.push(string_of(&piece));
                proof {
                    assert(piece@ =~= rest);
                    assert(out.deep_view() =~= before + seq![rest]);
                }
                break;
            },
        }
    }
    out
}

/// Trims every string of `v`.
pub fn trim_all(v: Vec<String>) -> (r: Vec<String>)
    ensures
        r.deep_view() == v.deep_view().map_values(|t: Seq<char>| trim(t)),
{
    let mut out: Vec<String> = Vec::new();
    let mut i: usize = 0;
    while i < v.len()
        invariant
            i <= v.len(),
            out.deep_view() == v.deep_view().take(i as int).map_values(|t: Seq<char>| trim(t)),
        decreases v.len() - i,
    {
        let cv = chars_of(v[i].as_str());
        let t = trim_vec(&cv);
        let ghost before = out.deep_view();
        out.push(string_of(&t));
        proof {
            assert(out.deep_view() =~= before.push(trim(v[i as int]@)));
            assert(v.deep_view().take(i + 1).map_values(|t: Seq<char>| trim(t)) =~= v.deep_view().take(
                i as int,
            ).map_values(|t: Seq<char>| trim(t)).push(trim(v[i as int]@)));
        }
        i += 1;
    }
    proof {
        assert(v.deep_view().take(v.len() as int) =~= v.deep_view());
    }
    out
}

} // verus!
