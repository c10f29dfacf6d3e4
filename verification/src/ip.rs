//! IP address literals. The grammar accepted here is the usual textual form:
//! a dotted quad of decimal octets for IPv4, and colon-separated hexadecimal
//! groups for IPv6, with at most one `::` compression and an optional dotted
//! quad embedded as the last two groups.

use vstd::prelude::*;
use vstd::string::StrSliceExecFns;

use crate::numbers::all_digits;
use crate::numbers::digits_val;
use crate::numbers::hex_val;
use crate::numbers::parse_h16;
use crate::numbers::parse_digits_bounded;
use crate::numbers::valid_h16;
use crate::strings::split_on;
use crate::strings::split_str;
use crate::strings::views_of;

verus! {

/// A parsed IP address, v4 or v6, held as plain integers.
#[derive(Debug, Clone, Copy, PartialEq, Eq, Structural)]
pub enum IpAddress {
    V4 { a: u8, b: u8, c: u8, d: u8 },
    V6 { g0: u16, g1: u16, g2: u16, g3: u16, g4: u16, g5: u16, g6: u16, g7: u16 },
}

/// `p` is a valid decimal octet of a dotted quad: one to three digits, no
/// leading zero, value at most 255.
pub open spec fn valid_octet(p: Seq<char>) -> bool {
    &&& 1 <= p.len() <= 3
    &&& all_digits(p)
    &&& (p.len() == 1 || p[0] != '0')
    &&& digits_val(p) <= 255
}

/// What parsing a string as an IPv4 literal yields: four valid octets
/// separated by dots.
pub open spec fn spec_parse_ipv4(s: Seq<char>) -> Option<(u8, u8, u8, u8)> {
    let ps = split_on(s, '.');
    if ps.len() == 4 && valid_octet(ps[0]) && valid_octet(ps[1]) && valid_octet(ps[2])
        && valid_octet(ps[3]) {
        Some(
            (
                digits_val(ps[0]) as u8,
                digits_val(ps[1]) as u8,
                digits_val(ps[2]) as u8,
                digits_val(ps[3]) as u8,
            ),
        )
    } else {
        None
    }
}

/// Parse one decimal octet.
fn parse_octet(p: &str) -> (r: Option<u8>)
    ensures
        r == if valid_octet(p@) {
            Some(digits_val(p@) as u8)
        } else {
            None::<u8>
        },
{
    let n = p.unicode_len();
    if n < 1 || n > 3 {
        return None;
    }
    if n > 1 && p.get_char(0) == '0' {
        return None;
    }
    assert(p@.skip(0) =~= p@);
    match parse_digits_bounded(p, 0, 255) {
        Some(v) => Some(v as u8),
        None => None,
    }
}

/// Parse a string as an IPv4 literal.
pub fn parse_ipv4(s: &str) -> (r: Option<(u8, u8, u8, u8)>)
    ensures
        r == spec_parse_ipv4(s@),
{
    let parts = split_str(s, '.');
    let ghost ps = split_on(s@, '.');
    assert(views_of(parts@).len() == parts@.len());
    if parts.len() != 4 {
        return None;
    }
    assert(forall|i: int| 0 <= i < 4 ==> ps[i] == parts@[i]@);
    let o0 = parse_octet(parts[0].as_str());
    let o1 = parse_octet(parts[1].as_str());
    let o2 = parse_octet(parts[2].as_str());
    let o3 = parse_octet(parts[3].as_str());
    match (o0, o1, o2, o3) {
        (Some(a), Some(b), Some(c), Some(d)) => Some((a, b, c, d)),
        _ => None,
    }
}

/// Every part in `[from, to)` is a valid 16-bit hexadecimal group.
pub open spec fn h16_range(ps: Seq<Seq<char>>, from: int, to: int) -> bool {
    forall|i: int| from <= i < to ==> valid_h16(ps[i])
}

/// `k` zero groups.
pub open spec fn zero_groups(k: int) -> Seq<u16> {
    Seq::new(k as nat, |i: int| 0u16)
}

/// The group values of the parts in `[from, to)`.
pub open spec fn groups_of(ps: Seq<Seq<char>>, from: int, to: int) -> Seq<u16> {
    Seq::new((to - from) as nat, |i: int| hex_val(ps[from + i]) as u16)
}

/// Index of the first empty part, or `-1` when none is empty.
pub open spec fn first_empty(ps: Seq<Seq<char>>) -> int
    decreases ps.len(),
{
    if ps.len() == 0 {
        -1
    } else if ps[0].len() == 0 {
        0
    } else {
        let r = first_empty(ps.skip(1));
        if r == -1 {
            -1
        } else {
            r + 1
        }
    }
}

pub proof fn lemma_first_empty(ps: Seq<Seq<char>>)
    ensures
        first_empty(ps) == -1 ==> forall|i: int| 0 <= i < ps.len() ==> ps[i].len() > 0,
        first_empty(ps) != -1 ==> {
            &&& 0 <= first_empty(ps) < ps.len()
            &&& ps[first_empty(ps)].len() == 0
            &&& forall|i: int| 0 <= i < first_empty(ps) ==> ps[i].len() > 0
        },
    decreases ps.len(),
{
    if ps.len() > 0 && ps[0].len() > 0 {
        lemma_first_empty(ps.skip(1));
        assert(forall|i: int| 1 <= i < ps.len() ==> ps[i] == ps.skip(1)[i - 1]);
    }
}

/// The two groups that an embedded dotted quad stands for.
pub open spec fn v4_groups(o: (u8, u8, u8, u8)) -> Seq<u16> {
    seq![
        ((o.0 as u16) * 256 + (o.1 as u16)) as u16,
        ((o.2 as u16) * 256 + (o.3 as u16)) as u16,
    ]
}

/// What parsing a string as an IPv6 literal yields: eight colon-separated
/// hexadecimal groups, with a single `::` standing for the missing run of
/// zero groups and an optional dotted quad standing for the last two groups.
pub open spec fn spec_parse_ipv6(s: Seq<char>) -> Option<Seq<u16>> {
    let ps = split_on(s, ':');
    let n = ps.len() as int;
    if n == 8 && h16_range(ps, 0, 8) {
        Some(groups_of(ps, 0, 8))
    } else if n == 7 && h16_range(ps, 0, 6) && spec_parse_ipv4(ps[6]) is Some {
        Some(groups_of(ps, 0, 6) + v4_groups(spec_parse_ipv4(ps[6])->Some_0))
    } else if n == 3 && ps[0].len() == 0 && ps[1].len() == 0 && ps[2].len() == 0 {
        Some(zero_groups(8))
    } else if 3 <= n <= 9 && ps[0].len() == 0 && ps[1].len() == 0 && h16_range(ps, 2, n) {
        Some(zero_groups(10 - n) + groups_of(ps, 2, n))
    } else if 3 <= n <= 8 && ps[0].len() == 0 && ps[1].len() == 0 && h16_range(ps, 2, n - 1)
        && spec_parse_ipv4(ps[n - 1]) is Some {
        Some(
            zero_groups(9 - n) + groups_of(ps, 2, n - 1) + v4_groups(
                spec_parse_ipv4(ps[n - 1])->Some_0,
            ),
        )
    } else if 3 <= n <= 9 && ps[n - 1].len() == 0 && ps[n - 2].len() == 0 && h16_range(
        ps,
        0,
        n - 2,
    ) {
        Some(groups_of(ps, 0, n - 2) + zero_groups(10 - n))
    } else if 1 <= first_empty(ps) <= n - 2 && n <= 8 && h16_range(ps, 0, first_empty(ps))
        && h16_range(ps, first_empty(ps) + 1, n) {
        Some(
            groups_of(ps, 0, first_empty(ps)) + zero_groups(9 - n) + groups_of(
                ps,
                first_empty(ps) + 1,
                n,
            ),
        )
    } else if 1 <= first_empty(ps) <= n - 2 && n <= 7 && h16_range(ps, 0, first_empty(ps))
        && h16_range(ps, first_empty(ps) + 1, n - 1) && spec_parse_ipv4(ps[n - 1]) is Some {
        Some(
            groups_of(ps, 0, first_empty(ps)) + zero_groups(8 - n) + groups_of(
                ps,
                first_empty(ps) + 1,
                n - 1,
            ) + v4_groups(spec_parse_ipv4(ps[n - 1])->Some_0),
        )
    } else {
        None
    }
}

/// The parts in `[from, to)` all parsed as groups.
fn all_some(vals: &Vec<Option<u16>>, from: usize, to: usize) -> (r: bool)
    requires
        from <= to <= vals@.len(),
    ensures
        r == forall|i: int| from <= i < to ==> vals@[i] is Some,
{
    let mut i: usize = from;
    while i < to
        invariant
            from <= i <= to <= vals@.len(),
            forall|k: int| from <= k < i ==> vals@[k] is Some,
        decreases to - i,
    {
        if vals[i].is_none() {
            return false;
        }
        i = i + 1;
    }
    true
}

/// Append the parsed group values of `[from, to)` to `out`.
fn push_groups(out: &mut Vec<u16>, vals: &Vec<Option<u16>>, from: usize, to: usize)
    requires
        from <= to <= vals@.len(),
        forall|i: int| from <= i < to ==> vals@[i] is Some,
    ensures
        final(out)@ == old(out)@ + Seq::new((to - from) as nat, |i: int| vals@[from + i]->Some_0),
{
    let mut i: usize = from;
    while i < to
        invariant
            from <= i <= to <= vals@.len(),
            forall|k: int| from <= k < to ==> vals@[k] is Some,
            out@ =~= old(out)@ + Seq::new((i - from) as nat, |k: int| vals@[from + k]->Some_0),
        decreases to - i,
    {
        let v = match vals[i] {
            Some(v) => v,
            None => 0,
        };
        out.push(v);
        i = i + 1;
    }
    assert(out@ =~= old(out)@ + Seq::new((to - from) as nat, |i: int| vals@[from + i]->Some_0));
}

/// Append the two groups of an embedded dotted quad to `out`.
fn push_v4_groups(out: &mut Vec<u16>, q: (u8, u8, u8, u8))
    ensures
        final(out)@ == old(out)@ + v4_groups(q),
{
    out.push((q.0 as u16) * 256 + (q.1 as u16));
    out.push((q.2 as u16) * 256 + (q.3 as u16));
    assert(out@ =~= old(out)@ + v4_groups(q));
}

/// Append `k` zero groups to `out`.
fn push_zero_groups(out: &mut Vec<u16>, k: usize)
    ensures
        final(out)@ == old(out)@ + zero_groups(k as int),
{
    let mut i: usize = 0;
    while i < k
        invariant
            i <= k,
            out@ =~= old(out)@ + zero_groups(i as int),
        decreases k - i,
    {
        out.push(0);
        i = i + 1;
    }
    assert(out@ =~= old(out)@ + zero_groups(k as int));
}

/// Index of the first empty part, if any.
fn find_empty_part(parts: &Vec<String>) -> (r: Option<usize>)
    ensures
        match r {
            Some(i) => i == first_empty(views_of(parts@)),
            None => first_empty(views_of(parts@)) == -1,
        },
{
    let ghost ps = views_of(parts@);
    assert(forall|k: int| 0 <= k < parts@.len() ==> ps[k] == parts@[k]@);
    let n = parts.len();
    let mut i: usize = 0;
    while i < n
        invariant
            i <= n,
            n == parts@.len(),
            ps == views_of(parts@),
            forall|k: int| 0 <= k < n ==> ps[k] == parts@[k]@,
            forall|k: int| 0 <= k < i ==> ps[k].len() > 0,
        decreases n - i,
    {
        if parts[i].as_str().is_empty() {
            proof {
                assert(ps[i as int].len() == 0);
                lemma_first_empty(ps);
                assert(first_empty(ps) != -1);
                assert(first_empty(ps) == i);
            }
            return Some(i);
        }
        i = i + 1;
    }
    proof {
        lemma_first_empty(ps);
    }
    None
}

/// Parse a string as an IPv6 literal; the eight groups come back most
/// significant first.
#[verifier::rlimit(100)]
pub fn parse_ipv6(s: &str) -> (r: Option<Vec<u16>>)
    ensures
        r is Some <==> spec_parse_ipv6(s@) is Some,
        r matches Some(v) ==> v@.len() == 8 && spec_parse_ipv6(s@) == Some(v@),
{
    let parts = split_str(s, ':');
    let ghost ps = split_on(s@, ':');
    assert(views_of(parts@) == ps);
    assert(forall|i: int| 0 <= i < parts@.len() ==> ps[i] == parts@[i]@);
    let n = parts.len();
    if n > 9 {
        return None;
    }
    let mut vals: Vec<Option<u16>> = Vec::new();
    let mut j: usize = 0;
    while j < n
        invariant
            j <= n,
            n == parts@.len(),
            ps == views_of(parts@),
            forall|i: int| 0 <= i < parts@.len() ==> ps[i] == parts@[i]@,
            vals@.len() == j,
            forall|i: int|
                0 <= i < j ==> vals@[i] == (if valid_h16(ps[i]) {
                    Some(hex_val(ps[i]) as u16)
                } else {
                    None::<u16>
                }),
        decreases n - j,
    {
        let pj = parse_h16(parts[j].as_str());
        vals.push(pj);
        j = j + 1;
    }
    assert(forall|i: int| 0 <= i < n ==> (vals@[i] is Some <==> valid_h16(ps[i])));
    assert(forall|i: int| 0 <= i < n ==> (vals@[i] is Some ==> vals@[i]->Some_0 == hex_val(ps[i]) as u16));
    let v4_last: Option<(u8, u8, u8, u8)> = if n > 0 {
        parse_ipv4(parts[n - 1].as_str())
    } else {
        None
    };
    assert(n > 0 ==> v4_last == spec_parse_ipv4(ps[n - 1]));
    if n == 8 && all_some(&vals, 0, 8) {
        assert(h16_range(ps, 0, 8));
        let mut out: Vec<u16> = Vec::new();
        push_groups(&mut out, &vals, 0, 8);
        assert(out@ =~= groups_of(ps, 0, 8));
        Some(out)
    } else if n == 7 && all_some(&vals, 0, 6) && v4_last.is_some() {
        assert(h16_range(ps, 0, 6));
        let q = v4_last.unwrap();
        let mut out: Vec<u16> = Vec::new();
        push_groups(&mut out, &vals, 0, 6);
        push_v4_groups(&mut out, q);
        assert(out@ =~= groups_of(ps, 0, 6) + v4_groups(q));
        Some(out)
    } else if n == 3 && parts[0].as_str().is_empty() && parts[1].as_str().is_empty()
        && parts[2].as_str().is_empty() {
        let mut out: Vec<u16> = Vec::new();
        push_zero_groups(&mut out, 8);
        assert(out@ =~= zero_groups(8));
        Some(out)
    } else if n >= 3 && parts[0].as_str().is_empty() && parts[1].as_str().is_empty() && all_some(
        &vals,
        2,
        n,
    ) {
        assert(h16_range(ps, 2, n as int));
        let mut out: Vec<u16> = Vec::new();
        push_zero_groups(&mut out, 10 - n);
        push_groups(&mut out, &vals, 2, n);
        assert(out@ =~= zero_groups(10 - n as int) + groups_of(ps, 2, n as int));
        Some(out)
    } else if n >= 3 && n <= 8 && parts[0].as_str().is_empty() && parts[1].as_str().is_empty()
        && all_some(&vals, 2, n - 1) && v4_last.is_some() {
        assert(h16_range(ps, 2, n - 1));
        let q = v4_last.unwrap();
        let mut out: Vec<u16> = Vec::new();
        push_zero_groups(&mut out, 9 - n);
        push_groups(&mut out, &vals, 2, n - 1);
        push_v4_groups(&mut out, q);
        assert(out@ =~= zero_groups(9 - n as int) + groups_of(ps, 2, n - 1) + v4_groups(q));
        Some(out)
    } else if n >= 3 && parts[n - 1].as_str().is_empty() && parts[n - 2].as_str().is_empty()
        && all_some(&vals, 0, n - 2) {
        assert(h16_range(ps, 0, n - 2));
        let mut out: Vec<u16> = Vec::new();
        push_groups(&mut out, &vals, 0, n - 2);
        push_zero_groups(&mut out, 10 - n);
        assert(out@ =~= groups_of(ps, 0, n - 2) + zero_groups(10 - n as int));
        Some(out)
    } else {
        match find_empty_part(&parts) {
            Some(k) => {
                proof {
                    lemma_first_empty(ps);
                }
                if 1 <= k && k + 2 <= n && n <= 8 && all_some(&vals, 0, k) && all_some(
                    &vals,
                    k + 1,
                    n,
                ) {
                    assert(h16_range(ps, 0, k as int));
                    assert(h16_range(ps, k + 1, n as int));
                    let mut out: Vec<u16> = Vec::new();
                    push_groups(&mut out, &vals, 0, k);
                    push_zero_groups(&mut out, 9 - n);
                    push_groups(&mut out, &vals, k + 1, n);
                    assert(out@ =~= groups_of(ps, 0, k as int) + zero_groups(9 - n as int)
                        + groups_of(ps, k + 1, n as int));
                    Some(out)
                } else if 1 <= k && k + 2 <= n && n <= 7 && all_some(&vals, 0, k) && all_some(
                    &vals,
                    k + 1,
                    n - 1,
                ) && v4_last.is_some() {
                    assert(h16_range(ps, 0, k as int));
                    assert(h16_range(ps, k + 1, n - 1));
                    let q = v4_last.unwrap();
                    let mut out: Vec<u16> = Vec::new();
                    push_groups(&mut out, &vals, 0, k);
                    push_zero_groups(&mut out, 8 - n);
                    push_groups(&mut out, &vals, k + 1, n - 1);
                    push_v4_groups(&mut out, q);
                    assert(out@ =~= groups_of(ps, 0, k as int) + zero_groups(8 - n as int)
                        + groups_of(ps, k + 1, n - 1) + v4_groups(q));
                    Some(out)
                } else {
                    None
                }
            },
            None => None,
        }
    }
}

/// What parsing a string as an IP literal yields: the IPv4 form when it
/// matches, otherwise the IPv6 form, otherwise nothing.
pub open spec fn spec_parse_ip(s: Seq<char>) -> Option<IpAddress> {
    match spec_parse_ipv4(s) {
        Some(o) => Some(IpAddress::V4 { a: o.0, b: o.1, c: o.2, d: o.3 }),
        None => match spec_parse_ipv6(s) {
            Some(g) => Some(
                IpAddress::V6 {
                    g0: g[0],
                    g1: g[1],
                    g2: g[2],
                    g3: g[3],
                    g4: g[4],
                    g5: g[5],
                    g6: g[6],
                    g7: g[7],
                },
            ),
            None => None,
        },
    }
}

/// Parse a string as an IP literal, v4 or v6.
pub fn parse_ip(s: &str) -> (r: Option<IpAddress>)
    ensures
        r == spec_parse_ip(s@),
{
    match parse_ipv4(s) {
        Some((a, b, c, d)) => Some(IpAddress::V4 { a, b, c, d }),
        None => match parse_ipv6(s) {
            Some(v) => Some(
                IpAddress::V6 {
                    g0: v[0],
                    g1: v[1],
                    g2: v[2],
                    g3: v[3],
                    g4: v[4],
                    g5: v[5],
                    g6: v[6],
                    g7: v[7],
                },
            ),
            None => None,
        },
    }
}

} // verus!
