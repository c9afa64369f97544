//! IP addresses: parsing (the grammar std's `IpAddr::from_str` accepts),
//! classification of public addresses, and PTR names.
use vstd::prelude::*;

use crate::text::{chars_of, contains_value, dec, dec_chars, push_char, push_chars, push_str, slice_vec, string_of, trim, trim_vec};

verus! {

// ---------------------------------------------------------------------------
// Model
// ---------------------------------------------------------------------------

/// An IP address: four octets or eight 16-bit segments.
#[derive(Clone, Copy, Debug)]
pub enum IpAddr {
    V4([u8; 4]),
    V6([u16; 8]),
}

/// The value of an address.
pub enum IpValue {
    V4(Seq<u8>),
    V6(Seq<u16>),
}

impl View for IpAddr {
    type V = IpValue;

    open spec fn view(&self) -> IpValue {
        match self {
            IpAddr::V4(o) => IpValue::V4(o@),
            IpAddr::V6(g) => IpValue::V6(g@),
        }
    }
}

// ---------------------------------------------------------------------------
// Grammar
// ---------------------------------------------------------------------------

/// `char::to_digit(radix)` for radix 10 or 16.
pub open spec fn digit_value(c: char, radix: nat) -> Option<nat> {
    if '0' <= c && c <= '9' {
        Some(((c as nat) - ('0' as nat)) as nat)
    } else if radix == 16 && 'a' <= c && c <= 'f' {
        Some(((c as nat) - ('a' as nat) + 10) as nat)
    } else if radix == 16 && 'A' <= c && c <= 'F' {
        Some(((c as nat) - ('A' as nat) + 10) as nat)
    } else {
        None
    }
}

/// Number of consecutive digits starting at `pos`.
pub open spec fn digit_run(s: Seq<char>, pos: int, radix: nat) -> nat
    decreases s.len() - pos,
{
    if 0 <= pos < s.len() && digit_value(s[pos], radix) is Some {
        1 + digit_run(s, pos + 1, radix)
    } else {
        0
    }
}

/// The value of the `n` digits starting at `pos`.
pub open spec fn digits_value(s: Seq<char>, pos: int, n: nat, radix: nat) -> nat
    decreases n,
{
    if n == 0 {
        0
    } else {
        digits_value(s, pos, (n - 1) as nat, radix) * radix + match digit_value(
            s[pos + n - 1],
            radix,
        ) {
            Some(d) => d,
            None => 0,
        }
    }
}

/// A number of at most `max` digits, at most `limit`, starting at `pos`; a
/// leading zero is refused unless `zero_ok` or the number is `0` itself.
pub open spec fn read_number(
    s: Seq<char>,
    pos: int,
    radix: nat,
    max: nat,
    zero_ok: bool,
    limit: nat,
) -> Option<(nat, int)> {
    let n = digit_run(s, pos, radix);
    if n == 0 || n > max {
        None
    } else if !zero_ok && s[pos] == '0' && n > 1 {
        None
    } else if digits_value(s, pos, n, radix) > limit {
        None
    } else {
        Some((digits_value(s, pos, n, radix), pos + n))
    }
}

/// A decimal octet.
pub open spec fn read_octet(s: Seq<char>, pos: int) -> Option<(nat, int)> {
    read_number(s, pos, 10, 3, false, 255)
}

/// A hexadecimal group of one to four digits.
pub open spec fn read_hex_group(s: Seq<char>, pos: int) -> Option<(nat, int)> {
    read_number(s, pos, 16, 4, true, 65535)
}

/// The character `c` at `pos`.
pub open spec fn char_at(s: Seq<char>, pos: int, c: char) -> bool {
    0 <= pos < s.len() && s[pos] == c
}

/// A dotted-quad IPv4 address starting at `pos`.
pub open spec fn read_v4(s: Seq<char>, pos: int) -> Option<(Seq<u8>, int)> {
    match read_octet(s, pos) {
        None => None,
        Some((a, p1)) => if !char_at(s, p1, '.') {
            None
        } else {
            match read_octet(s, p1 + 1) {
                None => None,
                Some((b, p2)) => if !char_at(s, p2, '.') {
                    None
                } else {
                    match read_octet(s, p2 + 1) {
                        None => None,
                        Some((c, p3)) => if !char_at(s, p3, '.') {
                            None
                        } else {
                            match read_octet(s, p3 + 1) {
                                None => None,
                                Some((d, p4)) => Some(
                                    (seq![a as u8, b as u8, c as u8, d as u8], p4),
                                ),
                            }
                        },
                    }
                },
            }
        },
    }
}

/// The position after the separator that precedes group `i` (none before
/// the first group), if it is there.
pub open spec fn after_sep(s: Seq<char>, pos: int, i: nat) -> Option<int> {
    if i == 0 {
        Some(pos)
    } else if char_at(s, pos, ':') {
        Some(pos + 1)
    } else {
        None
    }
}

/// An embedded IPv4 address as group `i`.
pub open spec fn read_v4_group(s: Seq<char>, pos: int, i: nat) -> Option<(Seq<u8>, int)> {
    match after_sep(s, pos, i) {
        Some(q) => read_v4(s, q),
        None => None,
    }
}

/// A hexadecimal group as group `i`.
pub open spec fn read_group(s: Seq<char>, pos: int, i: nat) -> Option<(nat, int)> {
    match after_sep(s, pos, i) {
        Some(q) => read_hex_group(s, q),
        None => None,
    }
}

/// Groups `i..limit` of an IPv6 address starting at `pos`: the groups read,
/// the position after them, and whether they ended with an embedded IPv4
/// address.
pub open spec fn read_groups(s: Seq<char>, pos: int, i: nat, limit: nat) -> (Seq<u16>, int, bool)
    decreases limit - i,
{
    if i >= limit {
        (seq![], pos, false)
    } else {
        let v4 = if i + 1 < limit {
            read_v4_group(s, pos, i)
        } else {
            None
        };
        match v4 {
            Some((o, e)) => (
                seq![(o[0] as nat * 256 + o[1] as nat) as u16, (o[2] as nat * 256 + o[3] as nat) as u16],
                e,
                true,
            ),
            None => match read_group(s, pos, i) {
                None => (seq![], pos, false),
                Some((g, e)) => {
                    let rest = read_groups(s, e, i + 1, limit);
                    (seq![g as u16] + rest.0, rest.1, rest.2)
                },
            },
        }
    }
}

/// An IPv6 address starting at the beginning of `s`, with the position after it.
pub open spec fn read_v6(s: Seq<char>) -> Option<(Seq<u16>, int)> {
    let (head, e1, v4) = read_groups(s, 0, 0, 8);
    if head.len() == 8 {
        Some((head, e1))
    } else if v4 {
        None
    } else if !(char_at(s, e1, ':') && char_at(s, e1 + 1, ':')) {
        None
    } else {
        let (tail, e2, _t4) = read_groups(s, e1 + 2, 0, (7 - head.len()) as nat);
        Some((head + Seq::new((8 - head.len() - tail.len()) as nat, |k: int| 0u16) + tail, e2))
    }
}

/// `IpAddr::from_str`: a whole IPv4 address, else a whole IPv6 address.
pub open spec fn parse_ip(s: Seq<char>) -> Option<IpValue> {
    match read_v4(s, 0) {
        Some((o, e)) => if e == s.len() {
            Some(IpValue::V4(o))
        } else {
            None
        },
        None => match read_v6(s) {
            Some((g, e)) => if e == s.len() {
                Some(IpValue::V6(g))
            } else {
                None
            },
            None => None,
        },
    }
}

// ---------------------------------------------------------------------------
// Classification
// ---------------------------------------------------------------------------

/// A routable public address: not private (RFC 1918), loopback, link-local,
/// multicast, documentation (IPv4 TEST-NETs and IPv6 `2001:db8::/32`),
/// reserved, or unique-local.
pub open spec fn is_public(ip: IpValue) -> bool {
    match ip {
        IpValue::V4(o) => !(o[0] == 10 || (o[0] == 172 && 16 <= o[1] <= 31) || (o[0] == 192 && o[1]
            == 168) || o[0] == 127 || (o[0] == 169 && o[1] == 254) || (224 <= o[0] <= 239) || (o[0]
            == 192 && o[1] == 0 && o[2] == 2) || (o[0] == 198 && o[1] == 51 && o[2] == 100) || (
        o[0] == 203 && o[1] == 0 && o[2] == 113) || o[0] >= 240),
        IpValue::V6(g) => !(g =~= seq![0u16, 0, 0, 0, 0, 0, 0, 1] || (g[0] & 0xfe00u16) == 0xfc00u16
            || (g[0] & 0xffc0u16) == 0xfe80u16 || (g[0] & 0xff00u16) == 0xff00u16 || (g[0] == 0x2001u16
            && g[1] == 0x0db8u16)),
    }
}

// ---------------------------------------------------------------------------
// Lemmas
// ---------------------------------------------------------------------------

proof fn lemma_digit_run(s: Seq<char>, pos: int, k: nat, radix: nat)
    requires
        0 <= pos,
        pos + k <= s.len(),
        forall|j: int| pos <= j < pos + k ==> digit_value(#[trigger] s[j], radix) is Some,
    ensures
        digit_run(s, pos, radix) >= k,
        (pos + k == s.len() || digit_value(s[pos + k], radix) is None) ==> digit_run(
            s,
            pos,
            radix,
        ) == k,
    decreases k,
{
    if k > 0 {
        lemma_digit_run(s, pos + 1, (k - 1) as nat, radix);
    }
}

// ---------------------------------------------------------------------------
// Executable parser
// ---------------------------------------------------------------------------

fn digit_exec(c: char, radix: u32) -> (r: Option<u32>)
    requires
        radix == 10 || radix == 16,
    ensures
        match digit_value(c, radix as nat) {
            Some(d) => r == Some(d as u32) && d < radix,
            None => r is None,
        },
{
    if '0' <= c && c <= '9' {
        Some((c as u32) - ('0' as u32))
    } else if radix == 16 && 'a' <= c && c <= 'f' {
        Some((c as u32) - ('a' as u32) + 10)
    } else if radix == 16 && 'A' <= c && c <= 'F' {
        Some((c as u32) - ('A' as u32) + 10)
    } else {
        None
    }
}

fn read_number_exec(
    s: &[char],
    pos: usize,
    radix: u32,
    max: usize,
    zero_ok: bool,
    limit: u32,
) -> (r: Option<(u32, usize)>)
    requires
        pos <= s.len(),
        radix == 10 || radix == 16,
        1 <= max <= 4,
    ensures
        match read_number(s@, pos as int, radix as nat, max as nat, zero_ok, limit as nat) {
            Some((v, e)) => r == Some((v as u32, e as usize)) && v <= limit && pos < e <= s.len(),
            None => r is None,
        },
{
    let mut n: usize = 0;
    let mut val: u32 = 0;
    loop
        invariant
            pos + n <= s.len(),
            n <= max,
            max <= 4,
            radix == 10 || radix == 16,
            forall|j: int| pos <= j < pos + n ==> digit_value(#[trigger] s@[j], radix as nat) is Some,
            val as nat == digits_value(s@, pos as int, n as nat, radix as nat),
            val < pow_of(radix as nat, n as nat),
        ensures
            pos + n <= s.len(),
            n <= max,
            forall|j: int| pos <= j < pos + n ==> digit_value(#[trigger] s@[j], radix as nat) is Some,
            val as nat == digits_value(s@, pos as int, n as nat, radix as nat),
            pos + n == s.len() || digit_value(s@[pos + n], radix as nat) is None,
        decreases s.len() - pos - n,
    {
        if pos + n == s.len() {
            break;
        }
        match digit_exec(s[pos + n], radix) {
            None => {
                break;
            },
            Some(d) => {
                if n == max {
                    proof {
                        lemma_digit_run(s@, pos as int, (n + 1) as nat, radix as nat);
                    }
                    return None;
                }
                proof {
                    lemma_pow_bound(radix as nat, (n + 1) as nat);
                    let p = pow_of(radix as nat, n as nat);
                    assert(val * radix + d < p * radix) by (nonlinear_arith)
                        requires
                            val < p,
                            d < radix,
                    ;
                }
                val = val * radix + d;
                n = n + 1;
            },
        }
    }
    proof {
        lemma_digit_run(s@, pos as int, n as nat, radix as nat);
    }
    if n == 0 {
        return None;
    }
    if !zero_ok && s[pos] == '0' && n > 1 {
        return None;
    }
    if val > limit {
        return None;
    }
    Some((val, pos + n))
}

proof fn lemma_pow_bound(radix: nat, n: nat)
    requires
        radix <= 16,
        n <= 4,
    ensures
        pow_of(radix, n) <= 65536,
{
    let p1 = pow_of(radix, 1);
    let p2 = pow_of(radix, 2);
    let p3 = pow_of(radix, 3);
    let p4 = pow_of(radix, 4);
    assert(pow_of(radix, 0) == 1);
    assert(p1 == pow_of(radix, 0) * radix);
    assert(p1 == radix);
    assert(p2 == p1 * radix);
    assert(p3 == p2 * radix);
    assert(p4 == p3 * radix);
    assert(p1 <= 16);
    assert(p2 <= 256) by (nonlinear_arith)
        requires
            p2 == p1 * radix,
            p1 <= 16,
            radix <= 16,
    ;
    assert(p3 <= 4096) by (nonlinear_arith)
        requires
            p3 == p2 * radix,
            p2 <= 256,
            radix <= 16,
    ;
    assert(p4 <= 65536) by (nonlinear_arith)
        requires
            p4 == p3 * radix,
            p3 <= 4096,
            radix <= 16,
    ;
}

/// `radix` to the power `n`.
pub open spec fn pow_of(radix: nat, n: nat) -> nat
    decreases n,
{
    if n == 0 {
        1
    } else {
        pow_of(radix, (n - 1) as nat) * radix
    }
}

fn read_octet_exec(s: &[char], pos: usize) -> (r: Option<(u8, usize)>)
    requires
        pos <= s.len(),
    ensures
        match read_octet(s@, pos as int) {
            Some((v, e)) => r == Some((v as u8, e as usize)) && pos < e <= s.len() && v < 256,
            None => r is None,
        },
{
    match read_number_exec(s, pos, 10, 3, false, 255) {
        Some((v, e)) => Some((v as u8, e)),
        None => None,
    }
}

fn char_at_exec(s: &[char], pos: usize, c: char) -> (b: bool)
    ensures
        b == char_at(s@, pos as int, c),
{
    pos < s.len() && s[pos] == c
}

fn read_v4_exec(s: &[char], pos: usize) -> (r: Option<([u8; 4], usize)>)
    requires
        pos <= s.len(),
    ensures
        match read_v4(s@, pos as int) {
            Some((o, e)) => r matches Some((a, e2)) && a@ == o && e2 == e && pos < e <= s.len(),
            None => r is None,
        },
{
    let (a, p1) = match read_octet_exec(s, pos) {
        Some(x) => x,
        None => return None,
    };
    if !char_at_exec(s, p1, '.') {
        return None;
    }
    let (b, p2) = match read_octet_exec(s, p1 + 1) {
        Some(x) => x,
        None => return None,
    };
    if !char_at_exec(s, p2, '.') {
        return None;
    }
    let (c, p3) = match read_octet_exec(s, p2 + 1) {
        Some(x) => x,
        None => return None,
    };
    if !char_at_exec(s, p3, '.') {
        return None;
    }
    let (d, p4) = match read_octet_exec(s, p3 + 1) {
        Some(x) => x,
        None => return None,
    };
    let o = [a, b, c, d];
    proof {
        assert(o@ =~= seq![a, b, c, d]);
    }
    Some((o, p4))
}

fn after_sep_exec(s: &[char], pos: usize, i: usize) -> (r: Option<usize>)
    requires
        pos <= s.len(),
    ensures
        match after_sep(s@, pos as int, i as nat) {
            Some(q) => r == Some(q as usize) && pos <= q <= s.len(),
            None => r is None,
        },
{
    if i == 0 {
        Some(pos)
    } else if char_at_exec(s, pos, ':') {
        Some(pos + 1)
    } else {
        None
    }
}

/// Combines already-read groups with the outcome of reading the rest.
pub open spec fn extend_groups(acc: Seq<u16>, rest: (Seq<u16>, int, bool)) -> (Seq<u16>, int, bool) {
    (acc + rest.0, rest.1, rest.2)
}

proof fn lemma_read_groups_len(s: Seq<char>, pos: int, i: nat, limit: nat)
    requires
        i <= limit,
    ensures
        read_groups(s, pos, i, limit).0.len() <= limit - i,
    decreases limit - i,
{
    if i < limit {
        let v4 = if i + 1 < limit {
            read_v4_group(s, pos, i)
        } else {
            None
        };
        if v4 is None {
            match read_group(s, pos, i) {
                None => {},
                Some((g, e)) => {
                    lemma_read_groups_len(s, e, i + 1, limit);
                },
            }
        }
    }
}

fn read_groups_exec(s: &[char], pos: usize, limit: usize) -> (r: (Vec<u16>, usize, bool))
    requires
        pos <= s.len(),
        limit <= 8,
    ensures
        read_groups(s@, pos as int, 0, limit as nat) == (r.0@, r.1 as int, r.2),
        pos <= r.1 <= s.len(),
        r.0.len() <= limit,
{
    let mut acc: Vec<u16> = Vec::new();
    let mut cur = pos;
    let mut i: usize = 0;
    proof {
        assert(acc@ + read_groups(s@, pos as int, 0, limit as nat).0 =~= read_groups(
            s@,
            pos as int,
            0,
            limit as nat,
        ).0);
        lemma_read_groups_len(s@, pos as int, 0, limit as nat);
    }
    while i < limit
        invariant
            i <= limit <= 8,
            pos <= cur <= s.len(),
            acc.len() == i,
            read_groups(s@, pos as int, 0, limit as nat) == extend_groups(
                acc@,
                read_groups(s@, cur as int, i as nat, limit as nat),
            ),
        decreases limit - i,
    {
        let ghost rest = read_groups(s@, cur as int, i as nat, limit as nat);
        let v4 = if i + 1 < limit {
            match after_sep_exec(s, cur, i) {
                Some(q) => read_v4_exec(s, q),
                None => None,
            }
        } else {
            None
        };
        match v4 {
            Some((o, e)) => {
                let g0: u16 = (o[0] as u16) * 256 + (o[1] as u16);
                let g1: u16 = (o[2] as u16) * 256 + (o[3] as u16);
                acc.push(g0);
                acc.push(g1);
                proof {
                    assert(rest.0 =~= seq![g0, g1]);
                    assert(read_groups(s@, pos as int, 0, limit as nat).0 =~= acc@);
                }
                return (acc, e, true);
            },
            None => {},
        }
        let g = match after_sep_exec(s, cur, i) {
            Some(q) => read_number_exec(s, q, 16, 4, true, 65535),
            None => None,
        };
        match g {
            None => {
                proof {
                    assert(rest.0 =~= Seq::<u16>::empty());
                    assert(acc@ + rest.0 =~= acc@);
                }
                return (acc, cur, false);
            },
            Some((gv, e)) => {
                let ghost old_acc = acc@;
                acc.push(gv as u16);
                proof {
                    let tail = read_groups(s@, e as int, (i + 1) as nat, limit as nat);
                    assert(old_acc + (seq![gv as u16] + tail.0) =~= acc@ + tail.0);
                }
                cur = e;
                i = i + 1;
            },
        }
    }
    proof {
        assert(acc@ + Seq::<u16>::empty() =~= acc@);
    }
    (acc, cur, false)
}

fn read_v6_exec(s: &[char]) -> (r: Option<([u16; 8], usize)>)
    ensures
        match read_v6(s@) {
            Some((g, e)) => r matches Some((a, e2)) && a@ == g && e2 == e,
            None => r is None,
        },
{
    let (head, e1, v4) = read_groups_exec(s, 0, 8);
    let mut all: Vec<u16> = Vec::new();
    let mut end = e1;
    if head.len() == 8 {
        all = head;
    } else if v4 {
        return None;
    } else if !(char_at_exec(s, e1, ':') && char_at_exec(s, e1 + 1, ':')) {
        return None;
    } else {
        let (tail, e2, _t4) = read_groups_exec(s, e1 + 2, 7 - head.len());
        let zeros = 8 - head.len() - tail.len();
        let mut k: usize = 0;
        while k < head.len()
            invariant
                k <= head.len(),
                all@ == head@.take(k as int),
            decreases head.len() - k,
        {
            all.push(head[k]);
            proof {
                assert(head@.take(k + 1) =~= head@.take(k as int).push(head@[k as int]));
            }
            k += 1;
        }
        let mut z: usize = 0;
        while z < zeros
            invariant
                z <= zeros,
                all@ == head@ + Seq::new(z as nat, |j: int| 0u16),
            decreases zeros - z,
        {
            all.push(0u16);
            proof {
                assert(head@ + Seq::new((z + 1) as nat, |j: int| 0u16) =~= (head@ + Seq::new(
                    z as nat,
                    |j: int| 0u16,
                )).push(0u16));
            }
            z += 1;
        }
        let mut t: usize = 0;
        let ghost mid = all@;
        while t < tail.len()
            invariant
                t <= tail.len(),
                all@ == mid + tail@.take(t as int),
            decreases tail.len() - t,
        {
            all.push(tail[t]);
            proof {
                assert(mid + tail@.take(t + 1) =~= (mid + tail@.take(t as int)).push(tail@[t as int]));
            }
            t += 1;
        }
        proof {
            assert(tail@.take(tail.len() as int) =~= tail@);
            assert(head@.take(head.len() as int) =~= head@);
        }
        end = e2;
    }
    assert(all.len() == 8);
    let a = [all[0], all[1], all[2], all[3], all[4], all[5], all[6], all[7]];
    proof {
        assert(a@ =~= all@);
    }
    Some((a, end))
}

/// Parses an IPv4 or IPv6 address (`IpAddr::from_str`).
pub fn parse_ip_chars(s: &[char]) -> (r: Option<IpAddr>)
    ensures
        match parse_ip(s@) {
            Some(v) => r matches Some(a) && a@ == v,
            None => r is None,
        },
{
    match read_v4_exec(s, 0) {
        Some((o, e)) => {
            if e == s.len() {
                Some(IpAddr::V4(o))
            } else {
                None
            }
        },
        None => match read_v6_exec(s) {
            Some((g, e)) => {
                if e == s.len() {
                    Some(IpAddr::V6(g))
                } else {
                    None
                }
            },
            None => None,
        },
    }
}

/// Parses an IPv4 or IPv6 address (`IpAddr::from_str`).
pub fn parse_ip_str(s: &str) -> (r: Option<IpAddr>)
    ensures
        match parse_ip(s@) {
            Some(v) => r matches Some(a) && a@ == v,
            None => r is None,
        },
{
    let v = chars_of(s);
    parse_ip_chars(&v)
}

/// Return `true` if `ip` is a routable public address.
/// Returns `false` for RFC-1918 private ranges, loopback, link-local,
/// multicast, documentation blocks, and broadcast.
pub fn is_public_ip(ip: &IpAddr) -> (b: bool)
    ensures
        b == is_public(ip@),
{
    match ip {
        IpAddr::V4(o) => {
            if o[0] == 10 {
                return false;
            }
            if o[0] == 172 && 16 <= o[1] && o[1] <= 31 {
                return false;
            }
            if o[0] == 192 && o[1] == 168 {
                return false;
            }
            if o[0] == 127 {
                return false;
            }
            if o[0] == 169 && o[1] == 254 {
                return false;
            }
            if o[0] >= 224 && o[0] <= 239 {
                return false;
            }
            if o[0] == 192 && o[1] == 0 && o[2] == 2 {
                return false;
            }
            if o[0] == 198 && o[1] == 51 && o[2] == 100 {
                return false;
            }
            if o[0] == 203 && o[1] == 0 && o[2] == 113 {
                return false;
            }
            if o[0] >= 240 {
                return false;
            }
            true
        },
        IpAddr::V6(g) => {
            let loopback = g[0] == 0 && g[1] == 0 && g[2] == 0 && g[3] == 0 && g[4] == 0 && g[5] == 0
                && g[6] == 0 && g[7] == 1;
            proof {
                if loopback {
                    assert(g@ =~= seq![0u16, 0, 0, 0, 0, 0, 0, 1]);
                } else {
                    assert(!(g@ =~= seq![0u16, 0, 0, 0, 0, 0, 0, 1]) || !(g@ == seq![0u16, 0, 0, 0, 0, 0, 0, 1])) by {
                        if g@ == seq![0u16, 0, 0, 0, 0, 0, 0, 1] {
                            assert(g@[7] == 1);
                            assert(g@[0] == 0);
                        }
                    }
                }
            }
            if loopback {
                return false;
            }
            if (g[0] & 0xfe00) == 0xfc00 {
                return false;
            }
            if (g[0] & 0xffc0) == 0xfe80 {
                return false;
            }
            if (g[0] & 0xff00) == 0xff00 {
                return false;
            }
            if g[0] == 0x2001 && g[1] == 0x0db8 {
                return false;
            }
            true
        },
    }
}

/// Return `true` if `s` is a valid IPv4 or IPv6 address.
pub fn is_ip(s: &str) -> (b: bool)
    ensures
        b == (parse_ip(s@) is Some),
{
    parse_ip_str(s).is_some()
}

/// Return `true` if `s` looks like a hostname (not a bare IP address).
pub fn is_hostname(s: &str) -> (b: bool)
    ensures
        b == (parse_ip(s@) is None),
{
    !is_ip(s)
}

// ---------------------------------------------------------------------------
// Target lists
// ---------------------------------------------------------------------------

/// A target separator: newline or comma.
pub open spec fn is_target_sep(c: char) -> bool {
    c == '\n' || c == ','
}

/// Index of the first separator in `s`.
pub open spec fn find_target_sep(s: Seq<char>) -> Option<int>
    decreases s.len(),
{
    if s.len() == 0 {
        None
    } else if is_target_sep(s[0]) {
        Some(0)
    } else {
        match find_target_sep(s.drop_first()) {
            Some(i) => Some(i + 1),
            None => None,
        }
    }
}

proof fn lemma_find_target_sep(s: Seq<char>, i: int)
    requires
        0 <= i <= s.len(),
        forall|j: int| 0 <= j < i ==> !is_target_sep(#[trigger] s[j]),
    ensures
        i < s.len() && is_target_sep(s[i]) ==> find_target_sep(s) == Some(i),
        i == s.len() ==> find_target_sep(s) is None,
    decreases i,
{
    if i > 0 {
        let t = s.drop_first();
        assert forall|j: int| 0 <= j < i - 1 implies !is_target_sep(#[trigger] t[j]) by {
            assert(t[j] == s[j + 1]);
        }
        lemma_find_target_sep(t, i - 1);
    }
}

pub proof fn lemma_find_target_sep_bound(s: Seq<char>)
    ensures
        find_target_sep(s) matches Some(i) ==> 0 <= i < s.len(),
    decreases s.len(),
{
    if s.len() > 0 {
        lemma_find_target_sep_bound(s.drop_first());
    }
}

/// `s.split(['\n', ','])`.
pub open spec fn split_targets(s: Seq<char>) -> Seq<Seq<char>>
    decreases s.len(),
{
    match find_target_sep(s) {
        Some(i) => {
            proof {
                lemma_find_target_sep_bound(s);
            }
            seq![s.take(i)] + split_targets(s.skip(i + 1))
        },
        None => seq![s],
    }
}

/// A trimmed token is kept when it is non-empty and is not a non-public IP
/// address (hostnames always pass).
pub open spec fn keep_target(t: Seq<char>) -> bool {
    t.len() > 0 && match parse_ip(t) {
        Some(ip) => is_public(ip),
        None => true,
    }
}

/// Kept tokens, trimmed, first occurrence only, in order.
pub open spec fn clean_fold(toks: Seq<Seq<char>>, acc: Seq<Seq<char>>) -> Seq<Seq<char>>
    decreases toks.len(),
{
    if toks.len() == 0 {
        acc
    } else {
        let t = trim(toks[0]);
        let acc1 = if keep_target(t) && !acc.contains(t) {
            acc.push(t)
        } else {
            acc
        };
        clean_fold(toks.drop_first(), acc1)
    }
}

/// The cleaned target list of `raw`.
pub open spec fn clean_targets_spec(raw: Seq<char>) -> Seq<Seq<char>> {
    clean_fold(split_targets(raw), seq![])
}

/// The tokens of a list, trimmed.
pub open spec fn trimmed_tokens(toks: Seq<Seq<char>>) -> Seq<Seq<char>> {
    toks.map_values(|t: Seq<char>| trim(t))
}

proof fn lemma_clean_fold(toks: Seq<Seq<char>>, acc: Seq<Seq<char>>)
    requires
        forall|i: int| 0 <= i < acc.len() ==> keep_target(#[trigger] acc[i]),
        forall|i: int, j: int| 0 <= i < j < acc.len() ==> acc[i] != acc[j],
    ensures
        ({
            let r = clean_fold(toks, acc);
            &&& forall|i: int| 0 <= i < r.len() ==> keep_target(#[trigger] r[i])
            &&& forall|i: int, j: int| 0 <= i < j < r.len() ==> r[i] != r[j]
            &&& forall|i: int| 0 <= i < r.len() ==> acc.contains(#[trigger] r[i]) || trimmed_tokens(toks).contains(r[i])
        }),
    decreases toks.len(),
{
    if toks.len() > 0 {
        let t = trim(toks[0]);
        let acc1 = if keep_target(t) && !acc.contains(t) {
            acc.push(t)
        } else {
            acc
        };
        assert forall|i: int, j: int| 0 <= i < j < acc1.len() implies acc1[i] != acc1[j] by {
            if j == acc.len() {
                assert(acc1[i] == acc[i]);
            }
        }
        assert forall|i: int| 0 <= i < acc1.len() implies keep_target(#[trigger] acc1[i]) by {
            if i < acc.len() {
                assert(acc1[i] == acc[i]);
            }
        }
        let rest = toks.drop_first();
        lemma_clean_fold(rest, acc1);
        let r = clean_fold(toks, acc);
        assert(r == clean_fold(rest, acc1));
        assert forall|i: int| 0 <= i < r.len() implies acc.contains(#[trigger] r[i]) || trimmed_tokens(toks).contains(r[i]) by {
            if acc1.contains(r[i]) {
                let m = choose|m: int| 0 <= m < acc1.len() && acc1[m] == r[i];
                if m < acc.len() {
                    assert(acc[m] == r[i]);
                } else {
                    assert(trimmed_tokens(toks)[0] == r[i]);
                }
            } else {
                assert(trimmed_tokens(rest).contains(r[i]));
                let k = choose|k: int| 0 <= k < trimmed_tokens(rest).len() && trimmed_tokens(rest)[k] == r[i];
                assert(rest[k] == toks[k + 1]);
                assert(trimmed_tokens(toks)[k + 1] == r[i]);
            }
        }
    }
}

/// Every cleaned target is non-empty, is the trimmed form of one of the
/// comma- or newline-separated tokens of the input, and is not a non-public
/// IP address; no target occurs twice.
pub proof fn law_clean_targets(raw: Seq<char>)
    ensures
        ({
            let r = clean_targets_spec(raw);
            &&& forall|i: int| 0 <= i < r.len() ==> (#[trigger] r[i]).len() > 0
            &&& forall|i: int| 0 <= i < r.len() ==> (parse_ip(#[trigger] r[i]) matches Some(ip) ==> is_public(ip))
            &&& forall|i: int, j: int| 0 <= i < j < r.len() ==> r[i] != r[j]
            &&& forall|i: int| 0 <= i < r.len() ==> trimmed_tokens(split_targets(raw)).contains(#[trigger] r[i])
        }),
{
    let e: Seq<Seq<char>> = seq![];
    lemma_clean_fold(split_targets(raw), e);
    let r = clean_targets_spec(raw);
    assert forall|i: int| 0 <= i < r.len() implies (#[trigger] r[i]).len() > 0 && (parse_ip(r[i]) matches Some(ip) ==> is_public(ip)) by {
        assert(keep_target(r[i]));
    }
    assert forall|i: int| 0 <= i < r.len() implies trimmed_tokens(split_targets(raw)).contains(#[trigger] r[i]) by {
        assert(!e.contains(r[i]));
    }
}

/// No IPv4 address in a private (RFC 1918: `10/8`, `172.16/12`,
/// `192.168/16`), loopback (`127/8`), link-local (`169.254/16`), multicast
/// (`224/4`), documentation (`192.0.2/24`, `198.51.100/24`, `203.0.113/24`)
/// or reserved (`240/4`) block is public, whatever its remaining octets.
pub proof fn law_ipv4_special_blocks_not_public(a: u8, b: u8, c: u8, d: u8)
    ensures
        a == 10 ==> !is_public(IpValue::V4(seq![a, b, c, d])),
        (a == 172 && 16 <= b && b <= 31) ==> !is_public(IpValue::V4(seq![a, b, c, d])),
        (a == 192 && b == 168) ==> !is_public(IpValue::V4(seq![a, b, c, d])),
        a == 127 ==> !is_public(IpValue::V4(seq![a, b, c, d])),
        (a == 169 && b == 254) ==> !is_public(IpValue::V4(seq![a, b, c, d])),
        a >= 224 ==> !is_public(IpValue::V4(seq![a, b, c, d])),
        (a == 192 && b == 0 && c == 2) ==> !is_public(IpValue::V4(seq![a, b, c, d])),
        (a == 198 && b == 51 && c == 100) ==> !is_public(IpValue::V4(seq![a, b, c, d])),
        (a == 203 && b == 0 && c == 113) ==> !is_public(IpValue::V4(seq![a, b, c, d])),
{
}

/// No IPv6 address in the loopback address `::1`, the unique-local block
/// `fc00::/7`, the link-local block `fe80::/10`, the multicast block
/// `ff00::/8` or the documentation block `2001:db8::/32` is public.
pub proof fn law_ipv6_special_blocks_not_public(g: Seq<u16>)
    requires
        g.len() == 8,
    ensures
        g =~= seq![0u16, 0, 0, 0, 0, 0, 0, 1] ==> !is_public(IpValue::V6(g)),
        (0xfc00u16 <= g[0] && g[0] <= 0xfdffu16) ==> !is_public(IpValue::V6(g)),
        (0xfe80u16 <= g[0] && g[0] <= 0xfebfu16) ==> !is_public(IpValue::V6(g)),
        0xff00u16 <= g[0] ==> !is_public(IpValue::V6(g)),
        (g[0] == 0x2001u16 && g[1] == 0x0db8u16) ==> !is_public(IpValue::V6(g)),
{
    let x = g[0];
    assert((0xfc00u16 <= x && x <= 0xfdffu16) ==> (x & 0xfe00u16) == 0xfc00u16) by (bit_vector);
    assert((0xfe80u16 <= x && x <= 0xfebfu16) ==> (x & 0xffc0u16) == 0xfe80u16) by (bit_vector);
    assert(0xff00u16 <= x ==> (x & 0xff00u16) == 0xff00u16) by (bit_vector);
}

fn keep_target_exec(t: &[char]) -> (b: bool)
    ensures
        b == keep_target(t@),
{
    t.len() > 0 && match parse_ip_chars(t) {
        Some(ip) => is_public_ip(&ip),
        None => true,
    }
}

/// End of the token starting at `pos`: the first separator at or after
/// `pos`, or the end of `v`.
fn token_end(v: &[char], pos: usize) -> (i: usize)
    requires
        pos <= v.len(),
    ensures
        pos <= i <= v.len(),
        i < v.len() ==> find_target_sep(v@.skip(pos as int)) == Some(i - pos),
        i == v.len() ==> find_target_sep(v@.skip(pos as int)) is None,
{
    let ghost rest = v@.skip(pos as int);
    let mut i = pos;
    while i < v.len() && !(v[i] == '\n' || v[i] == ',')
        invariant
            pos <= i <= v.len(),
            forall|j: int| pos <= j < i ==> !is_target_sep(#[trigger] v@[j]),
        decreases v.len() - i,
    {
        i += 1;
    }
    proof {
        assert forall|j: int| 0 <= j < i - pos implies !is_target_sep(#[trigger] rest[j]) by {
            assert(rest[j] == v@[j + pos]);
        }
        if i < v.len() {
            assert(rest[i - pos] == v@[i as int]);
        }
        lemma_find_target_sep(rest, i - pos);
    }
    i
}

/// Split `raw` on newlines and commas, trim each token, drop blanks,
/// skip non-public IP addresses, and deduplicate while preserving
/// insertion order.
pub fn clean_targets(raw: &str) -> (r: Vec<String>)
    ensures
        r.deep_view() == clean_targets_spec(raw@),
{
    let v = chars_of(raw);
    let mut acc: Vec<String> = Vec::new();
    let mut pos: usize = 0;
    proof {
        assert(v@.skip(0) =~= v@);
        assert(acc.deep_view() =~= Seq::<Seq<char>>::empty());
    }
    loop
        invariant_except_break
            clean_targets_spec(raw@) == clean_fold(split_targets(v@.skip(pos as int)), acc.deep_view()),
        invariant
            pos <= v.len(),
            v@ == raw@,
        ensures
            clean_targets_spec(raw@) == acc.deep_view(),
        decreases v.len() - pos,
    {
        let ghost rest = v@.skip(pos as int);
        let i = token_end(&v, pos);
        let tok = slice_vec(&v, pos, i);
        let t = trim_vec(&tok);
        let ghost before = acc.deep_view();
        if keep_target_exec(&t) && !contains_value(&acc, &t) {
            acc.push(string_of(&t));
            proof {
                assert(acc.deep_view() =~= before.push(t@));
            }
        }
        if i == v.len() {
            proof {
                assert(tok@ =~= rest);
                let toks = split_targets(rest);
                assert(toks =~= seq![rest]);
                assert(toks.drop_first() =~= Seq::<Seq<char>>::empty());
                assert(clean_fold(toks, before) == clean_fold(toks.drop_first(), acc.deep_view()));
            }
            break;
        }
        proof {
            assert(tok@ =~= rest.take(i - pos));
            assert(rest.skip(i - pos + 1) =~= v@.skip(i + 1));
            let toks = split_targets(rest);
            assert(toks.drop_first() =~= split_targets(v@.skip(i + 1)));
        }
        pos = i + 1;
    }
    acc
}

// ---------------------------------------------------------------------------
// PTR names
// ---------------------------------------------------------------------------

/// Lower-case hexadecimal digit.
pub open spec fn hex_char(d: nat) -> char {
    if d < 10 {
        ((d + 48) as u8) as char
    } else {
        ((d + 87) as u8) as char
    }
}

/// Nibble `k` (0 = most significant) of the 128-bit address `g`.
pub open spec fn nibble(g: Seq<u16>, k: int) -> nat {
    let seg = g[k / 4] as nat;
    let div: nat = if k % 4 == 0 {
        4096
    } else if k % 4 == 1 {
        256
    } else if k % 4 == 2 {
        16
    } else {
        1
    };
    (seg / div) % 16
}

/// The PTR query name of an address.
pub open spec fn ptr_name(ip: IpValue) -> Seq<char> {
    match ip {
        IpValue::V4(o) => dec(o[3] as nat) + "."@ + dec(o[2] as nat) + "."@ + dec(o[1] as nat)
            + "."@ + dec(o[0] as nat) + ".in-addr.arpa"@,
        IpValue::V6(g) => Seq::new(
            64,
            |i: int|
                if i % 2 == 0 {
                    hex_char(nibble(g, 31 - i / 2))
                } else {
                    '.'
                },
        ) + "ip6.arpa"@,
    }
}

fn hex_char_exec(d: u16) -> (c: char)
    requires
        d < 16,
    ensures
        c == hex_char(d as nat),
{
    if d < 10 {
        ((d as u8) + 48u8) as char
    } else {
        ((d as u8) + 87u8) as char
    }
}

/// Convert an IP address string to its PTR query name.
pub fn ip_to_ptr_name(ip: &str) -> (r: Option<String>)
    ensures
        match parse_ip(ip@) {
            Some(v) => r matches Some(s) && s@ == ptr_name(v),
            None => r is None,
        },
{
    match parse_ip_str(ip) {
        None => None,
        Some(IpAddr::V4(o)) => {
            let mut s = String::new();
            let d3 = dec_chars(o[3] as u64);
            push_chars(&mut s, &d3);
            push_str(&mut s, ".");
            let d2 = dec_chars(o[2] as u64);
            push_chars(&mut s, &d2);
            push_str(&mut s, ".");
            let d1 = dec_chars(o[1] as u64);
            push_chars(&mut s, &d1);
            push_str(&mut s, ".");
            let d0 = dec_chars(o[0] as u64);
            push_chars(&mut s, &d0);
            push_str(&mut s, ".in-addr.arpa");
            Some(s)
        },
        Some(IpAddr::V6(g)) => {
            let mut v: Vec<char> = Vec::new();
            let mut i: usize = 0;
            while i < 64
                invariant
                    i <= 64,
                    i % 2 == 0,
                    v@ == Seq::new(
                        i as nat,
                        |k: int|
                            if k % 2 == 0 {
                                hex_char(nibble(g@, 31 - k / 2))
                            } else {
                                '.'
                            },
                    ),
                decreases 64 - i,
            {
                let k: usize = 31 - i / 2;
                let seg = g[k / 4];
                let div: u16 = if k % 4 == 0 {
                    4096
                } else if k % 4 == 1 {
                    256
                } else if k % 4 == 2 {
                    16
                } else {
                    1
                };
                let nib = (seg / div) % 16;
                let c = hex_char_exec(nib);
                v.push(c);
                v.push('.');
                proof {
                    assert(nib as nat == nibble(g@, k as int));
                    assert(v@ =~= Seq::new(
                        (i + 2) as nat,
                        |k: int|
                            if k % 2 == 0 {
                                hex_char(nibble(g@, 31 - k / 2))
                            } else {
                                '.'
                            },
                    ));
                }
                i += 2;
            }
            let mut s = string_of(&v);
            push_str(&mut s, "ip6.arpa");
            Some(s)
        },
    }
}

} // verus!
