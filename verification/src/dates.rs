//! Dates as they come from registries.
use vstd::prelude::*;

use crate::text::{chars_of, push_str, string_of};

verus! {

pub open spec fn is_ascii_digit(c: char) -> bool {
    '0' <= c && c <= '9'
}

/// `YYYY-MM-DD`: a bare calendar date.
pub open spec fn is_bare_date(s: Seq<char>) -> bool {
    &&& s.len() == 10
    &&& s[4] == '-' && s[7] == '-'
    &&& forall|i: int| 0 <= i < 10 && i != 4 && i != 7 ==> is_ascii_digit(#[trigger] s[i])
}

/// A bare date becomes midnight UTC in ISO 8601 form; any other text is kept
/// as it is.
pub open spec fn normalize_date_spec(s: Seq<char>) -> Seq<char> {
    if is_bare_date(s) {
        s + "T00:00:00Z"@
    } else {
        s
    }
}

/// Normalizes a registry date: `2010-05-20` becomes `2010-05-20T00:00:00Z`,
/// a timestamp that is already complete (or any other text) is returned
/// unchanged.
pub fn normalize_date(s: &str) -> (r: String)
    ensures
        r@ == normalize_date_spec(s@),
{
    let v = chars_of(s);
    let mut bare = v.len() == 10;
    if bare {
        bare = v[4] == '-' && v[7] == '-';
    }
    let mut i: usize = 0;
    while bare && i < 10
        invariant
            v@ == s@,
            i <= 10,
            bare ==> v.len() == 10 && v@[4] == '-' && v@[7] == '-',
            bare ==> forall|k: int| 0 <= k < i && k != 4 && k != 7 ==> is_ascii_digit(#[trigger] v@[k]),
            !bare ==> !is_bare_date(s@),
        decreases 10 - i,
    {
        if i != 4 && i != 7 && !('0' <= v[i] && v[i] <= '9') {
            bare = false;
        }
        i += 1;
    }
    let mut r = string_of(&v);
    if bare {
        push_str(&mut r, "T00:00:00Z");
    }
    r
}

/// Normalizing is idempotent: a normalized date is left as it is.
pub proof fn law_normalize_date_idempotent(s: Seq<char>)
    ensures
        normalize_date_spec(normalize_date_spec(s)) == normalize_date_spec(s),
{
    reveal_strlit("T00:00:00Z");
}

} // verus!
