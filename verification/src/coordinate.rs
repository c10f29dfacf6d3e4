//! The geographic coordinate. Verified code holds no floating point, so a
//! component is kept as the validated decimal text of its header value; the
//! accepted grammar is the usual floating-point literal one (optional sign,
//! digits with at most one dot and at least one digit, an optional exponent,
//! and the words `inf`, `infinity` and `nan` in any case). A missing or
//! malformed component defaults to `0`, which reads as zero degrees.

use vstd::prelude::*;
use vstd::string::StrSliceExecFns;

use crate::numbers::all_digits;
use crate::numbers::is_digit;
use crate::strings::count_char;
use crate::strings::count_in_str;
use crate::strings::eq_ignore_case;
use crate::strings::str_eq_ignore_case;

verus! {

/// Index of the first exponent marker (`e` or `E`) in `s`, or `-1`.
pub open spec fn find_exp(s: Seq<char>) -> int
    decreases s.len(),
{
    if s.len() == 0 {
        -1
    } else if s[0] == 'e' || s[0] == 'E' {
        0
    } else {
        let r = find_exp(s.skip(1));
        if r == -1 {
            -1
        } else {
            r + 1
        }
    }
}

pub proof fn lemma_find_exp(s: Seq<char>)
    ensures
        find_exp(s) == -1 ==> forall|i: int| 0 <= i < s.len() ==> s[i] != 'e' && s[i] != 'E',
        find_exp(s) != -1 ==> {
            &&& 0 <= find_exp(s) < s.len()
            &&& (s[find_exp(s)] == 'e' || s[find_exp(s)] == 'E')
            &&& forall|i: int| 0 <= i < find_exp(s) ==> s[i] != 'e' && s[i] != 'E'
        },
    decreases s.len(),
{
    if s.len() > 0 && s[0] != 'e' && s[0] != 'E' {
        lemma_find_exp(s.skip(1));
        assert(forall|i: int| 1 <= i < s.len() ==> s[i] == s.skip(1)[i - 1]);
    }
}

/// `m` is a valid mantissa: digits with at most one dot and at least one
/// digit.
pub open spec fn is_mantissa(m: Seq<char>) -> bool {
    &&& forall|i: int| 0 <= i < m.len() ==> is_digit(m[i]) || m[i] == '.'
    &&& count_char(m, '.') <= 1
    &&& m.len() - count_char(m, '.') >= 1
}

/// `x` is a valid exponent suffix: an optional sign, then one or more
/// digits.
pub open spec fn is_exp_suffix(x: Seq<char>) -> bool {
    let digits = if x.len() > 0 && (x[0] == '+' || x[0] == '-') {
        x.skip(1)
    } else {
        x
    };
    digits.len() > 0 && all_digits(digits)
}

/// `b` is a valid floating-point literal without a leading sign.
pub open spec fn is_unsigned_float_body(b: Seq<char>) -> bool {
    ||| eq_ignore_case(b, "inf"@)
    ||| eq_ignore_case(b, "infinity"@)
    ||| eq_ignore_case(b, "nan"@)
    ||| {
        let e = find_exp(b);
        if e == -1 {
            is_mantissa(b)
        } else {
            is_mantissa(b.take(e)) && is_exp_suffix(b.skip(e + 1))
        }
    }
}

/// `s` is a valid floating-point literal: an optional sign, then an unsigned
/// body.
pub open spec fn is_float_literal(s: Seq<char>) -> bool {
    let body = if s.len() > 0 && (s[0] == '+' || s[0] == '-') {
        s.skip(1)
    } else {
        s
    };
    is_unsigned_float_body(body)
}

/// Check `s[start..]` for being a non-empty digit run.
fn digits_only_from(s: &str, start: usize) -> (r: bool)
    requires
        start <= s@.len(),
    ensures
        r == (s@.skip(start as int).len() > 0 && all_digits(s@.skip(start as int))),
{
    let ghost t = s@.skip(start as int);
    let n = s.unicode_len();
    if start >= n {
        return false;
    }
    let mut i: usize = start;
    while i < n
        invariant
            start <= i <= n,
            n == s@.len(),
            t == s@.skip(start as int),
            forall|k: int| 0 <= k < i - start ==> is_digit(t[k]),
        decreases n - i,
    {
        let c = s.get_char(i);
        assert(t[i - start] == s@[i as int]);
        if c < '0' || c > '9' {
            return false;
        }
        i = i + 1;
    }
    true
}

/// Check a string for being a valid mantissa.
fn check_mantissa(m: &str) -> (r: bool)
    ensures
        r == is_mantissa(m@),
{
    let n = m.unicode_len();
    let mut i: usize = 0;
    while i < n
        invariant
            i <= n,
            n == m@.len(),
            forall|k: int| 0 <= k < i ==> is_digit(m@[k]) || m@[k] == '.',
        decreases n - i,
    {
        let c = m.get_char(i);
        if !((c >= '0' && c <= '9') || c == '.') {
            return false;
        }
        i = i + 1;
    }
    let dots = count_in_str(m, '.');
    proof {
        crate::strings::lemma_count_char_bound(m@, '.');
    }
    dots <= 1 && n - dots >= 1
}

/// Check a string for being a valid exponent suffix.
fn check_exp_suffix(x: &str) -> (r: bool)
    ensures
        r == is_exp_suffix(x@),
{
    let n = x.unicode_len();
    let start: usize = if n > 0 && (x.get_char(0) == '+' || x.get_char(0) == '-') {
        1
    } else {
        0
    };
    assert(x@.skip(0) =~= x@);
    digits_only_from(x, start)
}

/// Position of the first exponent marker, if any.
fn find_exp_in_str(s: &str) -> (r: Option<usize>)
    ensures
        match r {
            Some(i) => i == find_exp(s@),
            None => find_exp(s@) == -1,
        },
{
    let n = s.unicode_len();
    let mut i: usize = 0;
    while i < n
        invariant
            i <= n,
            n == s@.len(),
            forall|k: int| 0 <= k < i ==> s@[k] != 'e' && s@[k] != 'E',
        decreases n - i,
    {
        let c = s.get_char(i);
        if c == 'e' || c == 'E' {
            proof {
                lemma_find_exp(s@);
            }
            return Some(i);
        }
        i = i + 1;
    }
    proof {
        lemma_find_exp(s@);
    }
    None
}

/// Check a string for being a valid floating-point literal.
pub fn is_float_literal_str(s: &str) -> (r: bool)
    ensures
        r == is_float_literal(s@),
{
    let n = s.unicode_len();
    let body: &str = if n > 0 && (s.get_char(0) == '+' || s.get_char(0) == '-') {
        s.substring_char(1, n)
    } else {
        s
    };
    assert(s@.skip(0) =~= s@);
    if str_eq_ignore_case(body, "inf") || str_eq_ignore_case(body, "infinity")
        || str_eq_ignore_case(body, "nan") {
        return true;
    }
    let bn = body.unicode_len();
    match find_exp_in_str(body) {
        None => check_mantissa(body),
        Some(e) => {
            proof {
                lemma_find_exp(body@);
            }
            let mantissa = body.substring_char(0, e);
            let suffix = body.substring_char(e + 1, bn);
            assert(mantissa@ =~= body@.take(e as int));
            assert(suffix@ =~= body@.skip(e + 1));
            check_mantissa(mantissa) && check_exp_suffix(suffix)
        },
    }
}

/// What a coordinate component becomes: the header text when it is a valid
/// floating-point literal, otherwise the default `0`.
pub open spec fn spec_coord_component(v: Option<Seq<char>>) -> Seq<char> {
    match v {
        Some(t) => if is_float_literal(t) {
            t
        } else {
            "0"@
        },
        None => "0"@,
    }
}

/// Coordinate of the client, each component held as validated decimal text.
#[derive(Debug, Clone, PartialEq)]
pub struct Coordinate {
    /// Latitude in degrees.
    pub latitude: String,
    /// Longitude in degrees.
    pub longitude: String,
}

impl Coordinate {
    /// Pair two components into a coordinate.
    pub fn new(latitude: String, longitude: String) -> (r: Coordinate)
        ensures
            r.latitude@ == latitude@,
            r.longitude@ == longitude@,
    {
        Coordinate { latitude, longitude }
    }
}

} // verus!
