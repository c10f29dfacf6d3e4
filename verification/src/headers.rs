//! The header accessor: a read-only view of one response-header snapshot,
//! looked up by semantic field name. The accessor prefixes the fixed
//! `cf-meta-` convention and compares header names case-insensitively, as
//! HTTP requires. When a name occurs more than once, the first entry wins.

use vstd::prelude::*;
use vstd::string::StringExecFns;

use crate::numbers::spec_parse_i64;
use crate::numbers::spec_parse_u32;
use crate::numbers::parse_i64;
use crate::numbers::parse_u32;
use crate::strings::eq_ignore_case;
use crate::strings::str_eq_ignore_case;

verus! {

/// Why a typed lookup failed: the header is absent, or its value does not
/// parse as the requested type.
#[derive(Debug, Clone, PartialEq)]
pub enum LookupError {
    NotFound,
    ParseFailure { field: String, raw: String, reason: String },
}

/// The views of a sequence of header entries.
pub open spec fn entries_view(es: Seq<(String, String)>) -> Seq<(Seq<char>, Seq<char>)> {
    Seq::new(es.len(), |i: int| (es[i].0@, es[i].1@))
}

/// The full header name of a semantic field name.
pub open spec fn full_header_name(field: Seq<char>) -> Seq<char> {
    "cf-meta-"@ + field
}

/// The value of the first entry whose name equals `key` up to ASCII case.
pub open spec fn spec_lookup(h: Seq<(Seq<char>, Seq<char>)>, key: Seq<char>) -> Option<Seq<char>>
    decreases h.len(),
{
    if h.len() == 0 {
        None
    } else if eq_ignore_case(h[0].0, key) {
        Some(h[0].1)
    } else {
        spec_lookup(h.skip(1), key)
    }
}

pub proof fn lemma_spec_lookup_none(h: Seq<(Seq<char>, Seq<char>)>, key: Seq<char>)
    requires
        forall|i: int| 0 <= i < h.len() ==> !eq_ignore_case(h[i].0, key),
    ensures
        spec_lookup(h, key) == None::<Seq<char>>,
    decreases h.len(),
{
    if h.len() > 0 {
        assert(forall|i: int| 1 <= i < h.len() ==> h[i] == h.skip(1)[i - 1]);
        lemma_spec_lookup_none(h.skip(1), key);
    }
}

pub proof fn lemma_spec_lookup_found(h: Seq<(Seq<char>, Seq<char>)>, key: Seq<char>, j: int)
    requires
        0 <= j < h.len(),
        eq_ignore_case(h[j].0, key),
        forall|i: int| 0 <= i < j ==> !eq_ignore_case(h[i].0, key),
    ensures
        spec_lookup(h, key) == Some(h[j].1),
    decreases h.len(),
{
    if j > 0 {
        assert(forall|i: int| 1 <= i < h.len() ==> h[i] == h.skip(1)[i - 1]);
        lemma_spec_lookup_found(h.skip(1), key, j - 1);
    }
}

/// Build the full header name of a semantic field name.
fn make_full_name(name: &str) -> (r: String)
    ensures
        r@ == full_header_name(name@),
{
    let mut key = String::from_str("cf-meta-");
    key.append(name);
    key
}

/// Look a semantic field name up in a list of header entries.
fn lookup_entries(entries: &Vec<(String, String)>, name: &str) -> (r: Option<String>)
    ensures
        match r {
            Some(v) => spec_lookup(entries_view(entries@), full_header_name(name@)) == Some(v@),
            None => spec_lookup(entries_view(entries@), full_header_name(name@)) == None::<
                Seq<char>,
            >,
        },
{
    let ghost h = entries_view(entries@);
    let key = make_full_name(name);
    let n = entries.len();
    let mut i: usize = 0;
    while i < n
        invariant
            i <= n,
            n == entries@.len(),
            h == entries_view(entries@),
            key@ == full_header_name(name@),
            forall|k: int| 0 <= k < i ==> !eq_ignore_case(h[k].0, key@),
        decreases n - i,
    {
        if str_eq_ignore_case(entries[i].0.as_str(), key.as_str()) {
            proof {
                lemma_spec_lookup_found(h, key@, i as int);
            }
            return Some(entries[i].1.clone());
        }
        i = i + 1;
    }
    proof {
        lemma_spec_lookup_none(h, key@);
    }
    None
}

/// A response-header snapshot, as handed in by the transport.
pub struct Headers {
    entries: Vec<(String, String)>,
}

impl View for Headers {
    type V = Seq<(Seq<char>, Seq<char>)>;

    closed spec fn view(&self) -> Seq<(Seq<char>, Seq<char>)> {
        entries_view(self.entries@)
    }
}

impl Headers {
    /// Capture a snapshot from a list of name/value pairs.
    pub fn from_entries(entries: Vec<(String, String)>) -> (h: Headers)
        ensures
            h@ == entries_view(entries@),
    {
        Headers { entries }
    }

    /// Look the raw value of a semantic field name up.
    pub fn get(&self, name: &str) -> (r: Result<String, LookupError>)
        ensures
            match spec_lookup(self@, full_header_name(name@)) {
                Some(v) => r matches Ok(s) && s@ == v,
                None => r matches Err(e) && e is NotFound,
            },
    {
        match lookup_entries(&self.entries, name) {
            Some(v) => Ok(v),
            None => Err(LookupError::NotFound),
        }
    }

    /// Look a field up and parse it as an unsigned 32-bit integer.
    pub fn get_u32(&self, name: &str) -> (r: Result<u32, LookupError>)
        ensures
            match spec_lookup(self@, full_header_name(name@)) {
                None => r matches Err(e) && e is NotFound,
                Some(v) => match spec_parse_u32(v) {
                    Some(x) => r == Ok::<u32, LookupError>(x),
                    None => r matches Err(e) && e matches LookupError::ParseFailure {
                        field,
                        raw,
                        reason,
                    } && field@ == name@ && raw@ == v && reason@ == "expected an unsigned integer"@,
                },
            },
    {
        match lookup_entries(&self.entries, name) {
            None => Err(LookupError::NotFound),
            Some(v) => match parse_u32(v.as_str()) {
                Some(x) => Ok(x),
                None => Err(
                    LookupError::ParseFailure {
                        field: String::from_str(name),
                        raw: v,
                        reason: String::from_str("expected an unsigned integer"),
                    },
                ),
            },
        }
    }

    /// Look a field up and parse it as a signed 64-bit integer.
    pub fn get_i64(&self, name: &str) -> (r: Result<i64, LookupError>)
        ensures
            match spec_lookup(self@, full_header_name(name@)) {
                None => r matches Err(e) && e is NotFound,
                Some(v) => match spec_parse_i64(v) {
                    Some(x) => r == Ok::<i64, LookupError>(x),
                    None => r matches Err(e) && e matches LookupError::ParseFailure {
                        field,
                        raw,
                        reason,
                    } && field@ == name@ && raw@ == v && reason@ == "expected an integer"@,
                },
            },
    {
        match lookup_entries(&self.entries, name) {
            None => Err(LookupError::NotFound),
            Some(v) => match parse_i64(v.as_str()) {
                Some(x) => Ok(x),
                None => Err(
                    LookupError::ParseFailure {
                        field: String::from_str(name),
                        raw: v,
                        reason: String::from_str("expected an integer"),
                    },
                ),
            },
        }
    }
}

/// A response-header snapshot under its older name; behaves as `Headers`
/// does.
pub struct ResponseHeaderMap {
    entries: Vec<(String, String)>,
}

impl View for ResponseHeaderMap {
    type V = Seq<(Seq<char>, Seq<char>)>;

    closed spec fn view(&self) -> Seq<(Seq<char>, Seq<char>)> {
        entries_view(self.entries@)
    }
}

impl ResponseHeaderMap {
    /// Capture a snapshot from a list of name/value pairs.
    pub fn from_entries(entries: Vec<(String, String)>) -> (h: ResponseHeaderMap)
        ensures
            h@ == entries_view(entries@),
    {
        ResponseHeaderMap { entries }
    }

    /// Look the raw value of a semantic field name up.
    pub fn get(&self, name: &str) -> (r: Result<String, LookupError>)
        ensures
            match spec_lookup(self@, full_header_name(name@)) {
                Some(v) => r matches Ok(s) && s@ == v,
                None => r matches Err(e) && e is NotFound,
            },
    {
        match lookup_entries(&self.entries, name) {
            Some(v) => Ok(v),
            None => Err(LookupError::NotFound),
        }
    }

    /// The snapshot as a `Headers` value.
    pub fn into_headers(self) -> (h: Headers)
        ensures
            h@ == self@,
    {
        Headers { entries: self.entries }
    }
}

} // verus!
