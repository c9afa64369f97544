//! BGP facts from RIPEstat: reading its responses, and naming the AS holder.
use vstd::prelude::*;

use crate::export::byte_len;
use crate::json::{arr_of, field, field_arr, field_str, str_of, u64_of, Json};
use crate::models::{BgpInfo, BgpPeer, BgpView};
use crate::rdap::at;
use crate::text::{
    chars_of, contains_char, find_sub, rfind_char, rfind_char_exec, slice_vec, split_once_sub,
    split_once_sub_exec, string_of, trim, trim_vec,
};

verus! {

// ---------------------------------------------------------------------------
// Holder names
// ---------------------------------------------------------------------------

/// Whether `c` has the Unicode `Uppercase` property (`char::is_uppercase`).
pub uninterp spec fn is_uppercase_char(c: char) -> bool;

/// `char::is_uppercase`: whether `c` has the Unicode `Uppercase` property.
/// The contract names the property; among ASCII characters it holds of
/// `A`..`Z` only, as the Unicode tables give it.
#[verifier::external_body]
fn char_is_uppercase(c: char) -> (r: bool)
    ensures
        r == is_uppercase_char(c),
        c <= '\x7f' ==> (r == ('A' <= c && c <= 'Z')),
{
    c.is_uppercase()
}

/// The text after the last comma (the whole text when there is none).
pub open spec fn after_last_comma(h: Seq<char>) -> Seq<char> {
    match rfind_char(h, ',') {
        Some(i) => h.skip(i + 1),
        None => h,
    }
}

/// Whether `c` is upper case: `A`..`Z` among ASCII characters, the Unicode
/// `Uppercase` property beyond them.
pub open spec fn is_upper(c: char) -> bool {
    if c <= '\x7f' {
        'A' <= c && c <= 'Z'
    } else {
        is_uppercase_char(c)
    }
}

/// A country code: two or three bytes, all upper case.
pub open spec fn is_country_code(t: Seq<char>) -> bool {
    2 <= byte_len(t) <= 3 && forall|i: int| 0 <= i < t.len() ==> is_upper(#[trigger] t[i])
}

/// The (AS name, country) of a RIPEstat holder such as
/// `"GOOGLE - Google LLC, US"`: the name is the part before `" - "`, else the
/// text without its trailing `", CC"`; the country is the last
/// comma-separated token when it is a two- or three-letter upper-case code.
pub open spec fn parse_holder_spec(holder: Option<Seq<char>>) -> (Option<Seq<char>>, Option<Seq<char>>) {
    match holder {
        None => (None, None),
        Some(h) => {
            let last = trim(after_last_comma(h));
            let country = if is_country_code(last) {
                Some(last)
            } else {
                None
            };
            let base = match split_once_sub(h, " - "@) {
                Some((short, _)) => trim(short),
                None => if country is Some {
                    match rfind_char(h, ',') {
                        Some(i) => trim(h.take(i)),
                        None => trim(h),
                    }
                } else {
                    trim(h)
                },
            };
            (Some(base), country)
        },
    }
}

/// Parses a RIPEstat holder into (AS name, country code).
pub fn parse_holder(holder: Option<&str>) -> (r: (Option<String>, Option<String>))
    ensures
        (r.0.deep_view(), r.1.deep_view()) == parse_holder_spec(
            match holder {
                Some(h) => Some(h@),
                None => None,
            },
        ),
{
    let h = match holder {
        Some(h) => h,
        None => return (None, None),
    };
    let v = chars_of(h);
    let comma = rfind_char_exec(&v, ',');
    let last_raw = match comma {
        Some(i) => {
            let t = slice_vec(&v, i + 1, v.len());
            proof {
                assert(t@ =~= v@.skip(i + 1));
            }
            t
        },
        None => slice_vec(&v, 0, v.len()),
    };
    proof {
        assert(v@.take(v.len() as int) =~= v@);
        assert(last_raw@ == after_last_comma(h@));
    }
    let last = trim_vec(&last_raw);
    let last_s = string_of(&last);
    let blen = last_s.as_str().len();
    let mut upper = true;
    let mut i: usize = 0;
    while i < last.len()
        invariant
            i <= last.len(),
            upper == (forall|k: int| 0 <= k < i ==> is_upper(#[trigger] last@[k])),
        decreases last.len() - i,
    {
        if !char_is_uppercase(last[i]) {
            upper = false;
        }
        i += 1;
    }
    let is_code = 2 <= blen && blen <= 3 && upper;
    proof {
        assert(blen as nat == byte_len(last@));
    }
    let country = if is_code {
        Some(last_s)
    } else {
        None
    };
    let base = match split_once_sub_exec(&v, &chars_of(" - ")) {
        Some((short, _)) => trim_vec(&short),
        None => {
            if is_code {
                match comma {
                    Some(i) => {
                        let left = slice_vec(&v, 0, i);
                        proof {
                            assert(left@ =~= v@.take(i as int));
                        }
                        trim_vec(&left)
                    },
                    None => trim_vec(&v),
                }
            } else {
                trim_vec(&v)
            }
        },
    };
    (Some(string_of(&base)), country)
}

// ---------------------------------------------------------------------------
// Prefixes
// ---------------------------------------------------------------------------

/// The `prefix` strings of `s`, split into (IPv4, IPv6) by whether they hold
/// a colon; entries without a `prefix` string are skipped.
pub open spec fn split_prefixes_spec(s: Seq<Json>) -> (Seq<Seq<char>>, Seq<Seq<char>>)
    decreases s.len(),
{
    if s.len() == 0 {
        (seq![], seq![])
    } else {
        let (v4, v6) = split_prefixes_spec(s.drop_last());
        match field_str(s.last(), "prefix"@) {
            Some(p) => if p.contains(':') {
                (v4, v6.push(p))
            } else {
                (v4.push(p), v6)
            },
            None => (v4, v6),
        }
    }
}

/// Splits prefix objects into (IPv4, IPv6) prefix strings.
pub fn split_prefixes(prefixes: Option<&Vec<Json>>) -> (r: (Vec<String>, Vec<String>))
    ensures
        (r.0.deep_view(), r.1.deep_view()) == (match prefixes {
            Some(a) => split_prefixes_spec(a@),
            None => (Seq::<Seq<char>>::empty(), Seq::<Seq<char>>::empty()),
        }),
{
    let mut v4: Vec<String> = Vec::new();
    let mut v6: Vec<String> = Vec::new();
    let arr = match prefixes {
        Some(a) => a,
        None => {
            proof {
                assert(v4.deep_view() =~= Seq::<Seq<char>>::empty());
                assert(v6.deep_view() =~= Seq::<Seq<char>>::empty());
            }
            return (v4, v6);
        },
    };
    let mut i: usize = 0;
    proof {
        assert(arr@.take(0) =~= Seq::<Json>::empty());
        assert(v4.deep_view() =~= Seq::<Seq<char>>::empty());
        assert(v6.deep_view() =~= Seq::<Seq<char>>::empty());
    }
    while i < arr.len()
        invariant
            i <= arr.len(),
            (v4.deep_view(), v6.deep_view()) == split_prefixes_spec(arr@.take(i as int)),
        decreases arr.len() - i,
    {
        proof {
            assert(arr@.take(i + 1).drop_last() =~= arr@.take(i as int));
        }
        match arr[i].get_str("prefix") {
            Some(p) => {
                let pv = chars_of(p.as_str());
                if contains_char(&pv, ':') {
                    let ghost before = v6.deep_view();
                    v6.push(p.clone());
                    proof {
                        assert(v6.deep_view() =~= before.push(p@));
                    }
                } else {
                    let ghost before = v4.deep_view();
                    v4.push(p.clone());
                    proof {
                        assert(v4.deep_view() =~= before.push(p@));
                    }
                }
            },
            None => {},
        }
        i += 1;
    }
    proof {
        assert(arr@.take(arr.len() as int) =~= arr@);
    }
    (v4, v6)
}

// ---------------------------------------------------------------------------
// RIPEstat responses
// ---------------------------------------------------------------------------

/// Why a RIPEstat response was refused.
#[derive(Clone, Debug)]
pub enum BgpError {
    /// The response's `status` is not `"ok"`; the payload names the query.
    NonOkStatus(String),
}

/// Whether a RIPEstat response reports success.
pub open spec fn status_ok(resp: Json) -> bool {
    field_str(resp, "status"@) == Some("ok"@)
}

fn check_status(resp: &Json) -> (r: bool)
    ensures
        r == status_ok(*resp),
{
    match resp.get_str("status") {
        Some(s) => {
            let v = chars_of(s.as_str());
            proof {
                reveal_strlit("ok");
            }
            crate::text::eq_lit(&v, "ok")
        },
        None => false,
    }
}

/// `resp["data"]`.
pub open spec fn data_of(resp: Json) -> Option<Json> {
    field(resp, "data"@)
}

/// The first entry of `data.asns`.
pub open spec fn first_asn(resp: Json) -> Option<Json> {
    match data_of(resp) {
        Some(d) => match field_arr(d, "asns"@) {
            Some(a) => at(a, 0),
            None => None,
        },
        None => None,
    }
}

/// `data.prefix`.
pub open spec fn data_prefix(resp: Json) -> Option<Seq<char>> {
    match data_of(resp) {
        Some(d) => field_str(d, "prefix"@),
        None => None,
    }
}

/// What a prefix-overview response says: the origin AS and the facts about
/// it, with the announced prefix of the address in the IPv4 or IPv6 list.
pub open spec fn prefix_overview_spec(resp: Json) -> (Option<u32>, BgpView) {
    let first = first_asn(resp);
    let asn = match first {
        Some(f) => match u64_of(field(f, "asn"@)) {
            Some(n) => Some(n as u32),
            None => None,
        },
        None => None,
    };
    let holder = match first {
        Some(f) => field_str(f, "holder"@),
        None => None,
    };
    let (name, country) = parse_holder_spec(holder);
    let prefix = data_prefix(resp);
    (
        asn,
        BgpView {
            asn: asn,
            as_name: name,
            as_country: country,
            prefixes_v4: match prefix {
                Some(p) if !p.contains(':') => seq![p],
                _ => seq![],
            },
            prefixes_v6: match prefix {
                Some(p) if p.contains(':') => seq![p],
                _ => seq![],
            },
            peers: seq![],
        },
    )
}

fn data_exec(resp: &Json) -> (r: Option<&Json>)
    ensures
        match data_of(*resp) {
            Some(d) => r == Some(&d),
            None => r is None,
        },
{
    resp.get("data")
}

/// Reads a prefix-overview response.
pub fn parse_prefix_overview(resp: &Json) -> (r: Result<(Option<u32>, BgpInfo), BgpError>)
    ensures
        !status_ok(*resp) ==> (r matches Err(BgpError::NonOkStatus(q)) && q@ == "prefix-overview"@),
        status_ok(*resp) ==> (r matches Ok((a, info)) && (a, info@) == prefix_overview_spec(*resp)),
{
    if !check_status(resp) {
        return Err(BgpError::NonOkStatus("prefix-overview".to_string()));
    }
    let first: Option<&Json> = match data_exec(resp) {
        Some(d) => match d.get_array("asns") {
            Some(a) => if a.len() > 0 {
                Some(&a[0])
            } else {
                None
            },
            None => None,
        },
        None => None,
    };
    proof {
        match first {
            Some(f) => assert(first_asn(*resp) == Some(*f)),
            None => assert(first_asn(*resp) is None),
        }
    }
    let asn: Option<u32> = match first {
        Some(f) => match f.get("asn") {
            Some(n) => match n.as_u64() {
                Some(x) => Some(x as u32),
                None => None,
            },
            None => None,
        },
        None => None,
    };
    let holder: Option<&String> = match first {
        Some(f) => f.get_str("holder"),
        None => None,
    };
    let (as_name, as_country) = match holder {
        Some(h) => parse_holder(Some(h.as_str())),
        None => parse_holder(None),
    };
    let prefix: Option<&String> = match data_exec(resp) {
        Some(d) => d.get_str("prefix"),
        None => None,
    };
    let mut prefixes_v4: Vec<String> = Vec::new();
    let mut prefixes_v6: Vec<String> = Vec::new();
    match prefix {
        Some(p) => {
            let pv = chars_of(p.as_str());
            if contains_char(&pv, ':') {
                prefixes_v6.push(p.clone());
            } else {
                prefixes_v4.push(p.clone());
            }
        },
        None => {},
    }
    let info = BgpInfo {
        asn,
        as_name,
        as_country,
        prefixes_v4,
        prefixes_v6,
        peers: Vec::new(),
    };
    proof {
        assert(info@ =~= prefix_overview_spec(*resp).1);
    }
    Ok((asn, info))
}

/// `data.prefixes`.
pub open spec fn data_prefixes(resp: Json) -> Option<Seq<Json>> {
    match data_of(resp) {
        Some(d) => field_arr(d, "prefixes"@),
        None => None,
    }
}

/// Reads an announced-prefixes response into (IPv4, IPv6) prefixes.
pub fn parse_announced_prefixes(resp: &Json) -> (r: Result<(Vec<String>, Vec<String>), BgpError>)
    ensures
        !status_ok(*resp) ==> (r matches Err(BgpError::NonOkStatus(q)) && q@ == "announced-prefixes"@),
        status_ok(*resp) ==> (r matches Ok((v4, v6)) && (v4.deep_view(), v6.deep_view()) == (match data_prefixes(*resp) {
            Some(a) => split_prefixes_spec(a),
            None => (Seq::<Seq<char>>::empty(), Seq::<Seq<char>>::empty()),
        })),
{
    if !check_status(resp) {
        return Err(BgpError::NonOkStatus("announced-prefixes".to_string()));
    }
    let arr = match data_exec(resp) {
        Some(d) => d.get_array("prefixes"),
        None => None,
    };
    Ok(split_prefixes(arr))
}

/// The origin ASes of the neighbour entries (each `asn` truncated to 32
/// bits), in order.
pub open spec fn neighbour_asns(s: Seq<Json>) -> Seq<u32>
    decreases s.len(),
{
    if s.len() == 0 {
        seq![]
    } else {
        match u64_of(field(s.last(), "asn"@)) {
            Some(n) => neighbour_asns(s.drop_last()).push(n as u32),
            None => neighbour_asns(s.drop_last()),
        }
    }
}

/// `data.neighbours`.
pub open spec fn data_neighbours(resp: Json) -> Option<Seq<Json>> {
    match data_of(resp) {
        Some(d) => field_arr(d, "neighbours"@),
        None => None,
    }
}

/// Whether `s` is strictly increasing.
pub open spec fn strictly_increasing(s: Seq<u32>) -> bool {
    forall|i: int, j: int| 0 <= i < j < s.len() ==> s[i] < s[j]
}

/// Whether `peers` lists exactly the ASes of `asns`, each once, in
/// increasing order, with no name or country.
pub open spec fn peers_of(peers: Seq<BgpPeer>, asns: Seq<u32>) -> bool {
    &&& strictly_increasing(peers.map_values(|p: BgpPeer| p.asn))
    &&& peers.map_values(|p: BgpPeer| p.asn).to_set() == asns.to_set()
    &&& forall|i: int| 0 <= i < peers.len() ==> (#[trigger] peers[i]).name is None && peers[i].country is None
}

/// Reads an AS-neighbours response: one peer per distinct neighbour AS,
/// sorted by AS number.
pub fn parse_neighbours(resp: &Json) -> (r: Result<Vec<BgpPeer>, BgpError>)
    ensures
        !status_ok(*resp) ==> (r matches Err(BgpError::NonOkStatus(q)) && q@ == "asn-neighbours"@),
        status_ok(*resp) ==> (r matches Ok(peers) && peers_of(peers@, match data_neighbours(*resp) {
            Some(a) => neighbour_asns(a),
            None => Seq::<u32>::empty(),
        })),
{
    if !check_status(resp) {
        return Err(BgpError::NonOkStatus("asn-neighbours".to_string()));
    }
    let arr: Option<&Vec<Json>> = match data_exec(resp) {
        Some(d) => d.get_array("neighbours"),
        None => None,
    };
    let ghost all: Seq<u32> = match arr {
        Some(a) => neighbour_asns(a@),
        None => Seq::<u32>::empty(),
    };
    let mut sorted: Vec<u32> = Vec::new();
    match arr {
        Some(a) => {
            let mut i: usize = 0;
            proof {
                assert(a@.take(0) =~= Seq::<Json>::empty());
                assert(sorted@.to_set() =~= neighbour_asns(a@.take(0)).to_set());
            }
            while i < a.len()
                invariant
                    i <= a.len(),
                    strictly_increasing(sorted@),
                    sorted@.to_set() == neighbour_asns(a@.take(i as int)).to_set(),
                decreases a.len() - i,
            {
                proof {
                    assert(a@.take(i + 1).drop_last() =~= a@.take(i as int));
                }
                match a[i].get("asn") {
                    Some(n) => match n.as_u64() {
                        Some(x) => {
                            let asn = x as u32;
                            insert_sorted_unique(&mut sorted, asn);
                            proof {
                                assert(neighbour_asns(a@.take(i + 1)) == neighbour_asns(a@.take(i as int)).push(asn));
                                lemma_push_to_set(neighbour_asns(a@.take(i as int)), asn);
                            }
                        },
                        None => {},
                    },
                    None => {},
                }
                i += 1;
            }
            proof {
                assert(a@.take(a.len() as int) =~= a@);
                assert(data_neighbours(*resp) == Some(a@));
            }
        },
        None => {
            proof {
                assert(sorted@.to_set() =~= Seq::<u32>::empty().to_set());
            }
        },
    }
    let mut peers: Vec<BgpPeer> = Vec::new();
    let mut k: usize = 0;
    while k < sorted.len()
        invariant
            k <= sorted.len(),
            peers@.map_values(|p: BgpPeer| p.asn) == sorted@.take(k as int),
            forall|j: int| 0 <= j < peers@.len() ==> (#[trigger] peers@[j]).name is None && peers@[j].country is None,
        decreases sorted.len() - k,
    {
        let ghost before = peers@;
        peers.push(BgpPeer { asn: sorted[k], name: None, country: None });
        proof {
            assert(peers@.map_values(|p: BgpPeer| p.asn) =~= before.map_values(|p: BgpPeer| p.asn).push(sorted@[k as int]));
            assert(sorted@.take(k + 1) =~= sorted@.take(k as int).push(sorted@[k as int]));
        }
        k += 1;
    }
    proof {
        assert(sorted@.take(sorted.len() as int) =~= sorted@);
    }
    Ok(peers)
}

proof fn lemma_push_to_set(s: Seq<u32>, x: u32)
    ensures
        s.push(x).to_set() == s.to_set().insert(x),
{
    assert forall|y: u32| s.push(x).to_set().contains(y) <==> s.to_set().insert(x).contains(y) by {
        if s.push(x).to_set().contains(y) {
            let k = choose|k: int| 0 <= k < s.push(x).len() && s.push(x)[k] == y;
            if k < s.len() {
                assert(s[k] == y);
            }
        }
        if s.to_set().contains(y) {
            let k = choose|k: int| 0 <= k < s.len() && s[k] == y;
            assert(s.push(x)[k] == y);
        }
        if y == x {
            assert(s.push(x)[s.len() as int] == x);
        }
    }
    assert(s.push(x).to_set() =~= s.to_set().insert(x));
}

/// Inserts `x` into a strictly increasing list unless it is already there.
fn insert_sorted_unique(v: &mut Vec<u32>, x: u32)
    requires
        strictly_increasing(old(v)@),
    ensures
        strictly_increasing(final(v)@),
        final(v)@.to_set() == old(v)@.to_set().insert(x),
{
    let mut j: usize = 0;
    while j < v.len() && v[j] < x
        invariant
            j <= v.len(),
            forall|k: int| 0 <= k < j ==> v@[k] < x,
        decreases v.len() - j,
    {
        j += 1;
    }
    if j < v.len() && v[j] == x {
        proof {
            assert(v@.to_set() =~= v@.to_set().insert(x));
        }
        return ;
    }
    let ghost s = v@;
    v.insert(j, x);
    proof {
        assert(v@ =~= s.take(j as int) + seq![x] + s.skip(j as int));
        assert forall|a: int, b: int| 0 <= a < b < v@.len() implies v@[a] < v@[b] by {
            if b < j {
                assert(v@[a] == s[a] && v@[b] == s[b]);
            } else if b == j {
                assert(v@[a] == s[a]);
            } else if a < j {
                assert(v@[b] == s[b - 1]);
                assert(s[b - 1] >= x);
            } else if a == j {
                assert(v@[b] == s[b - 1]);
            } else {
                assert(v@[a] == s[a - 1] && v@[b] == s[b - 1]);
            }
        }
        assert forall|y: u32| v@.to_set().contains(y) <==> s.to_set().insert(x).contains(y) by {
            if v@.to_set().contains(y) {
                let k = choose|k: int| 0 <= k < v@.len() && v@[k] == y;
                if k < j {
                    assert(s[k] == y);
                } else if k > j {
                    assert(s[k - 1] == y);
                }
            }
            if s.to_set().contains(y) && y != x {
                let k = choose|k: int| 0 <= k < s.len() && s[k] == y;
                if k < j {
                    assert(v@[k] == y);
                } else {
                    assert(v@[k + 1] == y);
                }
            }
            if y == x {
                assert(v@[j as int] == x);
            }
        }
        assert(v@.to_set() =~= s.to_set().insert(x));
    }
}

/// The full BGP facts: the prefix overview, completed by the announced
/// prefixes and the neighbours when those queries succeeded.
pub fn complete_bgp(
    info: BgpInfo,
    prefixes: Option<(Vec<String>, Vec<String>)>,
    peers: Option<Vec<BgpPeer>>,
) -> (r: BgpInfo)
    ensures
        r@ == (BgpView {
            prefixes_v4: match prefixes {
                Some((v4, _)) => v4.deep_view(),
                None => info@.prefixes_v4,
            },
            prefixes_v6: match prefixes {
                Some((_, v6)) => v6.deep_view(),
                None => info@.prefixes_v6,
            },
            peers: match peers {
                Some(p) => p@.map_values(|x: BgpPeer| x@),
                None => info@.peers,
            },
            ..info@
        }),
{
    let mut info = info;
    match prefixes {
        Some((v4, v6)) => {
            info.prefixes_v4 = v4;
            info.prefixes_v6 = v6;
        },
        None => {},
    }
    match peers {
        Some(p) => {
            info.peers = p;
        },
        None => {},
    }
    info
}

} // verus!
