//! A JSON document model, with the accessors that RDAP, RIPEstat and locale
//! documents are read through.
use vstd::prelude::*;

use crate::text::{chars_of, eq_chars};

verus! {

/// A JSON value.
#[derive(Debug)]
pub enum Json {
    Null,
    Bool(bool),
    /// A number, as written in canonical JSON text (`"24"`, `"-3"`, `"1.5"`).
    Number(String),
    String(String),
    Array(Vec<Json>),
    /// Members in document order; keys are distinct.
    Object(Vec<(String, Json)>),
}

/// Value of the decimal digit `c`.
pub open spec fn digit_val(c: char) -> int {
    (c as int) - ('0' as int)
}

pub open spec fn is_digit(c: char) -> bool {
    '0' <= c && c <= '9'
}

/// The value of a run of decimal digits.
pub open spec fn digits_nat(s: Seq<char>) -> nat
    decreases s.len(),
{
    if s.len() == 0 {
        0
    } else {
        (digits_nat(s.drop_last()) * 10 + digit_val(s.last())) as nat
    }
}

/// `serde_json::Value::as_u64` on a number: the value when the text is a
/// non-negative integer that fits in 64 bits.
pub open spec fn number_u64(t: Seq<char>) -> Option<u64> {
    if t.len() > 0 && (forall|i: int| 0 <= i < t.len() ==> is_digit(#[trigger] t[i]))
        && digits_nat(t) <= u64::MAX {
        Some(digits_nat(t) as u64)
    } else {
        None
    }
}

/// Index of the first member named `key`.
pub open spec fn member_index(m: Seq<(String, Json)>, key: Seq<char>) -> Option<int>
    decreases m.len(),
{
    if m.len() == 0 {
        None
    } else if m[0].0@ == key {
        Some(0)
    } else {
        match member_index(m.drop_first(), key) {
            Some(i) => Some(i + 1),
            None => None,
        }
    }
}

pub proof fn lemma_member_index(m: Seq<(String, Json)>, key: Seq<char>)
    ensures
        member_index(m, key) matches Some(i) ==> 0 <= i < m.len() && m[i].0@ == key,
    decreases m.len(),
{
    if m.len() > 0 {
        lemma_member_index(m.drop_first(), key);
    }
}

/// `j[key]`: the member named `key` of an object (`None` stands for the
/// `Null` that indexing yields when there is no such member).
pub open spec fn field(j: Json, key: Seq<char>) -> Option<Json> {
    match j {
        Json::Object(m) => match member_index(m@, key) {
            Some(i) => Some(m@[i].1),
            None => None,
        },
        _ => None,
    }
}

/// `j[i]` on an array.
pub open spec fn item(j: Json, i: int) -> Option<Json> {
    match j {
        Json::Array(v) => if 0 <= i < v@.len() {
            Some(v@[i])
        } else {
            None
        },
        _ => None,
    }
}

/// `as_str`.
pub open spec fn str_of(j: Option<Json>) -> Option<Seq<char>> {
    match j {
        Some(Json::String(s)) => Some(s@),
        _ => None,
    }
}

/// `as_array`.
pub open spec fn arr_of(j: Option<Json>) -> Option<Seq<Json>> {
    match j {
        Some(Json::Array(v)) => Some(v@),
        _ => None,
    }
}

/// `as_u64`.
pub open spec fn u64_of(j: Option<Json>) -> Option<u64> {
    match j {
        Some(Json::Number(t)) => number_u64(t@),
        _ => None,
    }
}

/// `j[key].as_str()`.
pub open spec fn field_str(j: Json, key: Seq<char>) -> Option<Seq<char>> {
    str_of(field(j, key))
}

/// `j[key].as_array()`.
pub open spec fn field_arr(j: Json, key: Seq<char>) -> Option<Seq<Json>> {
    arr_of(field(j, key))
}

impl Json {
    /// `self[key]` on an object: the member named `key`, if any.
    pub fn get(&self, key: &str) -> (r: Option<&Json>)
        ensures
            match field(*self, key@) {
                Some(v) => r == Some(&v),
                None => r is None,
            },
    {
        match self {
            Json::Object(m) => {
                let k = chars_of(key);
                let mut i: usize = 0;
                proof {
                    assert(m@.skip(0) =~= m@);
                }
                while i < m.len()
                    invariant
                        *self == Json::Object(*m),
                        i <= m.len(),
                        k@ == key@,
                        member_index(m@, key@) == (match member_index(m@.skip(i as int), key@) {
                            Some(j) => Some(j + i),
                            None => None::<int>,
                        }),
                    decreases m.len() - i,
                {
                    let ghost rest = m@.skip(i as int);
                    proof {
                        assert(rest.drop_first() =~= m@.skip(i + 1));
                        assert(rest[0] == m@[i as int]);
                    }
                    let kc = chars_of(m[i].0.as_str());
                    if eq_chars(&kc, &k) {
                        return Some(&m[i].1);
                    }
                    i += 1;
                }
                None
            },
            _ => None,
        }
    }

    /// `self[key].as_str()`.
    pub fn get_str(&self, key: &str) -> (r: Option<&String>)
        ensures
            match field_str(*self, key@) {
                Some(s) => r matches Some(x) && x@ == s,
                None => r is None,
            },
    {
        match self.get(key) {
            Some(Json::String(s)) => Some(s),
            _ => None,
        }
    }

    /// `self[key].as_array()`.
    pub fn get_array(&self, key: &str) -> (r: Option<&Vec<Json>>)
        ensures
            match field_arr(*self, key@) {
                Some(s) => r matches Some(x) && x@ == s,
                None => r is None,
            },
    {
        match self.get(key) {
            Some(Json::Array(v)) => Some(v),
            _ => None,
        }
    }

    /// `self.as_str()`.
    pub fn as_str(&self) -> (r: Option<&String>)
        ensures
            match str_of(Some(*self)) {
                Some(s) => r matches Some(x) && x@ == s,
                None => r is None,
            },
    {
        match self {
            Json::String(s) => Some(s),
            _ => None,
        }
    }

    /// `self.as_array()`.
    pub fn as_array(&self) -> (r: Option<&Vec<Json>>)
        ensures
            match arr_of(Some(*self)) {
                Some(s) => r matches Some(x) && x@ == s,
                None => r is None,
            },
    {
        match self {
            Json::Array(v) => Some(v),
            _ => None,
        }
    }

    /// `self.as_u64()`.
    pub fn as_u64(&self) -> (r: Option<u64>)
        ensures
            r == u64_of(Some(*self)),
    {
        match self {
            Json::Number(t) => {
                let v = chars_of(t.as_str());
                parse_u64_digits(&v)
            },
            _ => None,
        }
    }
}

/// The value of `t` when it is a non-empty run of decimal digits that fits in
/// 64 bits.
pub fn parse_u64_digits(t: &[char]) -> (r: Option<u64>)
    ensures
        r == number_u64(t@),
{
    if t.len() == 0 {
        return None;
    }
    let mut acc: u64 = 0;
    let mut i: usize = 0;
    while i < t.len()
        invariant
            0 < t.len(),
            i <= t.len(),
            forall|k: int| 0 <= k < i ==> is_digit(#[trigger] t@[k]),
            acc as nat == digits_nat(t@.take(i as int)),
        decreases t.len() - i,
    {
        let c = t[i];
        proof {
            assert(t@.take(i + 1).drop_last() =~= t@.take(i as int));
        }
        if !('0' <= c && c <= '9') {
            return None;
        }
        let d = ((c as u32) - ('0' as u32)) as u64;
        if acc > 1844674407370955161u64 || (acc == 1844674407370955161u64 && d > 5) {
            proof {
                assert(t@.take(i + 1).last() == c);
                assert(digits_nat(t@.take(i + 1)) == acc * 10 + digit_val(c));
                if forall|k: int| 0 <= k < t.len() ==> is_digit(#[trigger] t@[k]) {
                    lemma_digits_monotone(t@, i + 1);
                }
            }
            return None;
        }
        proof {
            assert(t@.take(i + 1).last() == c);
        }
        acc = acc * 10 + d;
        i += 1;
    }
    proof {
        assert(t@.take(t.len() as int) =~= t@);
    }
    Some(acc)
}

/// A prefix of a digit run never has a larger value than the whole run.
pub proof fn lemma_digits_monotone(s: Seq<char>, n: int)
    requires
        0 <= n <= s.len(),
        forall|k: int| 0 <= k < s.len() ==> is_digit(#[trigger] s[k]),
    ensures
        digits_nat(s.take(n)) <= digits_nat(s),
    decreases s.len() - n,
{
    if n < s.len() {
        lemma_digits_monotone(s, n + 1);
        assert(s.take(n + 1).drop_last() =~= s.take(n));
        assert(is_digit(s[n]));
    } else {
        assert(s.take(n) =~= s);
    }
}

} // verus!
