//! Classification of hop addresses as local (non-routable) or public.
//!
//! An address is given as text. It is parsed as a dotted quad of four
//! decimal octets; text that does not parse is treated like the all-zeros
//! address, so malformed input is always classified local and never sent to
//! the remote lookup. A parsed address is local exactly when its 32-bit
//! value falls in one of the reserved ranges listed in `is_local_value`.

use vstd::prelude::*;

verus! {

/// A decimal digit character.
pub open spec fn is_digit(c: char) -> bool {
    48 <= c as u32 <= 57
}

/// Numeric value of a decimal digit character.
pub open spec fn digit_val(c: char) -> int {
    c as u32 - 48
}

/// Value of a string of decimal digits, most significant first.
pub open spec fn octet_value(f: Seq<char>) -> int
    decreases f.len(),
{
    if f.len() == 0 {
        0
    } else {
        octet_value(f.drop_last()) * 10 + digit_val(f.last())
    }
}

/// A well-formed decimal octet: one to three digits, no leading zero,
/// value at most 255.
pub open spec fn valid_octet(f: Seq<char>) -> bool {
    &&& 1 <= f.len() <= 3
    &&& (forall|t: int| 0 <= t < f.len() ==> is_digit(#[trigger] f[t]))
    &&& (f.len() > 1 ==> f[0] != '0')
    &&& octet_value(f) <= 255
}

/// The slice of `s` from `from` to `to` is a well-formed octet of value `v`.
pub open spec fn octet_at(s: Seq<char>, from: int, to: int, v: u8) -> bool {
    &&& valid_octet(s.subrange(from, to))
    &&& octet_value(s.subrange(from, to)) == v as int
}

/// `s` is a dotted quad whose four octets are `a`, `b`, `c`, `d`:
/// three dots split it into four well-formed decimal octets.
pub open spec fn quad_parses_to(s: Seq<char>, a: u8, b: u8, c: u8, d: u8) -> bool {
    exists|i: int, j: int, k: int|
        #![trigger s[i], s[j], s[k]]
        {
            &&& 0 <= i < j < k < s.len()
            &&& s[i] == '.'
            &&& s[j] == '.'
            &&& s[k] == '.'
            &&& octet_at(s, 0, i, a)
            &&& octet_at(s, i + 1, j, b)
            &&& octet_at(s, j + 1, k, c)
            &&& octet_at(s, k + 1, s.len() as int, d)
        }
}

/// `s` parses as some dotted quad.
pub open spec fn parses_as_quad(s: Seq<char>) -> bool {
    exists|q: (u8, u8, u8, u8)| quad_parses_to(s, q.0, q.1, q.2, q.3)
}

/// The 32-bit value of a dotted quad.
pub open spec fn ipv4_value(a: u8, b: u8, c: u8, d: u8) -> int {
    0x100_0000 * (a as int) + 0x1_0000 * (b as int) + 0x100 * (c as int) + (d as int)
}

/// The reserved, non-routable ranges: the zero address, 10.0.0.0/8,
/// 100.64.0.0/10, 127.0.0.0/8, 169.254.0.0/16, 172.16.0.0/12,
/// 192.168.0.0/16, and everything from 224.0.0.0 up.
pub open spec fn is_local_value(v: int) -> bool {
    ||| v == 0
    ||| 167772160 <= v <= 184549375
    ||| 1681915904 <= v <= 1686110207
    ||| 2130706432 <= v <= 2147483647
    ||| 2851995648 <= v <= 2852061183
    ||| 2886729728 <= v <= 2887778303
    ||| 3232235520 <= v <= 3232301055
    ||| v >= 3758096384
}

/// A textual address is local when it parses to a quad in a reserved range,
/// or does not parse at all (such input stands for the all-zeros address).
pub open spec fn spec_is_local(s: Seq<char>) -> bool {
    if parses_as_quad(s) {
        let q = choose|q: (u8, u8, u8, u8)| quad_parses_to(s, q.0, q.1, q.2, q.3);
        is_local_value(ipv4_value(q.0, q.1, q.2, q.3))
    } else {
        true
    }
}

/// A string parses as a dotted quad in at most one way: the octets of any
/// two parses agree.
pub proof fn lemma_quad_parse_unique(
    s: Seq<char>,
    a1: u8, b1: u8, c1: u8, d1: u8,
    a2: u8, b2: u8, c2: u8, d2: u8,
)
    requires
        quad_parses_to(s, a1, b1, c1, d1),
        quad_parses_to(s, a2, b2, c2, d2),
    ensures
        a1 == a2,
        b1 == b2,
        c1 == c2,
        d1 == d2,
{
    let (i1, j1, k1) = choose|i: int, j: int, k: int|
        #![trigger s[i], s[j], s[k]]
        {
            &&& 0 <= i < j < k < s.len()
            &&& s[i] == '.'
            &&& s[j] == '.'
            &&& s[k] == '.'
            &&& octet_at(s, 0, i, a1)
            &&& octet_at(s, i + 1, j, b1)
            &&& octet_at(s, j + 1, k, c1)
            &&& octet_at(s, k + 1, s.len() as int, d1)
        };
    let (i2, j2, k2) = choose|i: int, j: int, k: int|
        #![trigger s[i], s[j], s[k]]
        {
            &&& 0 <= i < j < k < s.len()
            &&& s[i] == '.'
            &&& s[j] == '.'
            &&& s[k] == '.'
            &&& octet_at(s, 0, i, a2)
            &&& octet_at(s, i + 1, j, b2)
            &&& octet_at(s, j + 1, k, c2)
            &&& octet_at(s, k + 1, s.len() as int, d2)
        };
    lemma_dot_is_separator(s, i1, j1, k1, a1, b1, c1, d1, i2);
    lemma_dot_is_separator(s, i1, j1, k1, a1, b1, c1, d1, j2);
    lemma_dot_is_separator(s, i1, j1, k1, a1, b1, c1, d1, k2);
    assert(i1 == i2 && j1 == j2 && k1 == k2);
    assert(s.subrange(0, i1) == s.subrange(0, i2));
    assert(s.subrange(i1 + 1, j1) == s.subrange(i2 + 1, j2));
    assert(s.subrange(j1 + 1, k1) == s.subrange(j2 + 1, k2));
    assert(s.subrange(k1 + 1, s.len() as int) == s.subrange(k2 + 1, s.len() as int));
}

/// Inside a parse witnessed by the dots `i < j < k`, every dot of `s`
/// is one of `i`, `j`, `k`: the four octet slices hold digits only.
proof fn lemma_dot_is_separator(
    s: Seq<char>,
    i: int, j: int, k: int,
    a: u8, b: u8, c: u8, d: u8,
    p: int,
)
    requires
        0 <= i < j < k < s.len(),
        octet_at(s, 0, i, a),
        octet_at(s, i + 1, j, b),
        octet_at(s, j + 1, k, c),
        octet_at(s, k + 1, s.len() as int, d),
        0 <= p < s.len(),
        s[p] == '.',
    ensures
        p == i || p == j || p == k,
{
    if p < i {
        assert(is_digit(s.subrange(0, i)[p]));
    } else if i < p < j {
        assert(is_digit(s.subrange(i + 1, j)[p - (i + 1)]));
    } else if j < p < k {
        assert(is_digit(s.subrange(j + 1, k)[p - (j + 1)]));
    } else if k < p {
        assert(is_digit(s.subrange(k + 1, s.len() as int)[p - (k + 1)]));
    }
}

/// A string whose dots all lie at one of two positions has no quad parse:
/// a parse needs three distinct dots.
proof fn lemma_no_quad_few_dots(s: Seq<char>, q1: int, q2: int)
    requires
        forall|p: int| 0 <= p < s.len() && #[trigger] s[p] == '.' ==> p == q1 || p == q2,
    ensures
        forall|a: u8, b: u8, c: u8, d: u8| !quad_parses_to(s, a, b, c, d),
{
    assert forall|a: u8, b: u8, c: u8, d: u8| !quad_parses_to(s, a, b, c, d) by {
        if quad_parses_to(s, a, b, c, d) {
            let (i, j, k) = choose|i: int, j: int, k: int|
                #![trigger s[i], s[j], s[k]]
                {
                    &&& 0 <= i < j < k < s.len()
                    &&& s[i] == '.'
                    &&& s[j] == '.'
                    &&& s[k] == '.'
                    &&& octet_at(s, 0, i, a)
                    &&& octet_at(s, i + 1, j, b)
                    &&& octet_at(s, j + 1, k, c)
                    &&& octet_at(s, k + 1, s.len() as int, d)
                };
            assert(i == q1 || i == q2);
            assert(j == q1 || j == q2);
            assert(k == q1 || k == q2);
            assert(false);
        }
    }
}

/// A string with four distinct dots has no quad parse: every dot of a
/// parse is one of its three separators.
proof fn lemma_no_quad_four_dots(s: Seq<char>, e1: int, e2: int, e3: int, e4: int)
    requires
        0 <= e1 < e2 < e3 < e4 < s.len(),
        s[e1] == '.',
        s[e2] == '.',
        s[e3] == '.',
        s[e4] == '.',
    ensures
        forall|a: u8, b: u8, c: u8, d: u8| !quad_parses_to(s, a, b, c, d),
{
    assert forall|a: u8, b: u8, c: u8, d: u8| !quad_parses_to(s, a, b, c, d) by {
        if quad_parses_to(s, a, b, c, d) {
            let (i, j, k) = choose|i: int, j: int, k: int|
                #![trigger s[i], s[j], s[k]]
                {
                    &&& 0 <= i < j < k < s.len()
                    &&& s[i] == '.'
                    &&& s[j] == '.'
                    &&& s[k] == '.'
                    &&& octet_at(s, 0, i, a)
                    &&& octet_at(s, i + 1, j, b)
                    &&& octet_at(s, j + 1, k, c)
                    &&& octet_at(s, k + 1, s.len() as int, d)
                };
            lemma_dot_is_separator(s, i, j, k, a, b, c, d, e1);
            lemma_dot_is_separator(s, i, j, k, a, b, c, d, e2);
            lemma_dot_is_separator(s, i, j, k, a, b, c, d, e3);
            lemma_dot_is_separator(s, i, j, k, a, b, c, d, e4);
            assert(false);
        }
    }
}

/// Parses the slice of `s` from `from` to `to` as one decimal octet.
/// Returns its value exactly when the slice is a well-formed octet.
fn parse_octet(s: &str, from: usize, to: usize) -> (r: Option<u8>)
    requires
        from <= to <= s@.len(),
    ensures
        r is Some <==> valid_octet(s@.subrange(from as int, to as int)),
        r is Some ==> r->0 as int == octet_value(s@.subrange(from as int, to as int)),
{
    let ghost f = s@.subrange(from as int, to as int);
    let len = to - from;
    if len == 0 || len > 3 {
        return None;
    }
    let mut i: usize = from;
    let mut acc: u32 = 0;
    while i < to
        invariant
            from <= i <= to <= s@.len(),
            to - from <= 3,
            f == s@.subrange(from as int, to as int),
            forall|t: int| from <= t < i ==> is_digit(#[trigger] s@[t]),
            acc as int == octet_value(s@.subrange(from as int, i as int)),
            i - from == 0 ==> acc == 0,
            i - from == 1 ==> acc <= 9,
            i - from == 2 ==> acc <= 99,
            i - from == 3 ==> acc <= 999,
        decreases to - i,
    {
        let c = s.get_char(i);
        let u = c as u32;
        if u < 48 || u > 57 {
            proof {
                assert(f[i - from] == s@[i as int]);
                assert(!is_digit(f[i - from]));
            }
            return None;
        }
        proof {
            let pre = s@.subrange(from as int, i as int);
            let cur = s@.subrange(from as int, i + 1);
            assert(cur.drop_last() =~= pre);
            assert(cur.last() == s@[i as int]);
        }
        acc = acc * 10 + (u - 48);
        i = i + 1;
    }
    proof {
        assert(f =~= s@.subrange(from as int, to as int));
    }
    if len > 1 && s.get_char(from) == '0' {
        proof {
            assert(f[0] == s@[from as int]);
        }
        return None;
    }
    if acc > 255 {
        return None;
    }
    proof {
        assert(forall|t: int| 0 <= t < f.len() ==> is_digit(#[trigger] f[t]) && f[t] == s@[from + t]);
    }
    Some(acc as u8)
}

/// Parses a whole string as a dotted quad. Returns the four octets exactly
/// when the string is a well-formed dotted quad, and nothing otherwise.
pub fn parse_dotted_quad(s: &str) -> (r: Option<(u8, u8, u8, u8)>)
    ensures
        forall|a: u8, b: u8, c: u8, d: u8|
            quad_parses_to(s@, a, b, c, d) <==> r == Some((a, b, c, d)),
{
    let n = s.unicode_len();
    let mut i: usize = 0;
    let mut ndots: usize = 0;
    let mut d1: usize = 0;
    let mut d2: usize = 0;
    let mut d3: usize = 0;
    let mut d4: usize = 0;
    while i < n
        invariant
            0 <= i <= n,
            n == s@.len(),
            ndots <= 4,
            ndots >= 1 ==> d1 < i && s@[d1 as int] == '.',
            ndots >= 2 ==> d1 < d2 < i && s@[d2 as int] == '.',
            ndots >= 3 ==> d2 < d3 < i && s@[d3 as int] == '.',
            ndots >= 4 ==> d3 < d4 < i && s@[d4 as int] == '.',
            ndots < 4 ==> (forall|p: int|
                0 <= p < i ==> (#[trigger] s@[p] == '.' <==> ((ndots >= 1 && p == d1) || (
                ndots >= 2 && p == d2) || (ndots >= 3 && p == d3)))),
        decreases n - i,
    {
        let c = s.get_char(i);
        if c == '.' {
            if ndots == 0 {
                d1 = i;
                ndots = 1;
            } else if ndots == 1 {
                d2 = i;
                ndots = 2;
            } else if ndots == 2 {
                d3 = i;
                ndots = 3;
            } else if ndots == 3 {
                d4 = i;
                ndots = 4;
            }
        }
        i = i + 1;
    }
    if ndots < 3 {
        proof {
            lemma_no_quad_few_dots(s@, d1 as int, d2 as int);
        }
        return None;
    }
    if ndots > 3 {
        proof {
            lemma_no_quad_four_dots(s@, d1 as int, d2 as int, d3 as int, d4 as int);
        }
        return None;
    }
    let oa = parse_octet(s, 0, d1);
    let ob = parse_octet(s, d1 + 1, d2);
    let oc = parse_octet(s, d2 + 1, d3);
    let od = parse_octet(s, d3 + 1, n);
    match (oa, ob, oc, od) {
        (Some(a), Some(b), Some(c), Some(d)) => {
            proof {
                assert(quad_parses_to(s@, a, b, c, d)) by {
                    assert(s@[d1 as int] == '.' && s@[d2 as int] == '.' && s@[d3 as int]
                        == '.');
                    assert(octet_at(s@, 0, d1 as int, a));
                    assert(octet_at(s@, d1 as int + 1, d2 as int, b));
                    assert(octet_at(s@, d2 as int + 1, d3 as int, c));
                    assert(octet_at(s@, d3 as int + 1, s@.len() as int, d));
                }
                assert forall|a2: u8, b2: u8, c2: u8, d2u: u8|
                    quad_parses_to(s@, a2, b2, c2, d2u) implies (a2, b2, c2, d2u) == (a,
                b, c, d) by {
                    lemma_quad_parse_unique(s@, a, b, c, d, a2, b2, c2, d2u);
                }
            }
            Some((a, b, c, d))
        },
        _ => {
            proof {
                assert forall|a2: u8, b2: u8, c2: u8, d2u: u8|
                    !quad_parses_to(s@, a2, b2, c2, d2u) by {
                    if quad_parses_to(s@, a2, b2, c2, d2u) {
                        let (wi, wj, wk) = choose|wi: int, wj: int, wk: int|
                            #![trigger s@[wi], s@[wj], s@[wk]]
                            {
                                &&& 0 <= wi < wj < wk < s@.len()
                                &&& s@[wi] == '.'
                                &&& s@[wj] == '.'
                                &&& s@[wk] == '.'
                                &&& octet_at(s@, 0, wi, a2)
                                &&& octet_at(s@, wi + 1, wj, b2)
                                &&& octet_at(s@, wj + 1, wk, c2)
                                &&& octet_at(s@, wk + 1, s@.len() as int, d2u)
                            };
                        assert(wi == d1 && wj == d2 && wk == d3);
                        assert(false);
                    }
                }
            }
            None
        },
    }
}

/// Decides whether a textual address is local (non-routable). Malformed
/// text counts as the all-zeros address and is therefore local, so nothing
/// malformed is ever sent to the remote lookup.
pub fn is_local_ip(ip: &str) -> (local: bool)
    ensures
        local == spec_is_local(ip@),
{
    match parse_dotted_quad(ip) {
        None => {
            proof {
                if parses_as_quad(ip@) {
                    let q = choose|q: (u8, u8, u8, u8)|
                        quad_parses_to(ip@, q.0, q.1, q.2, q.3);
                    assert(false);
                }
            }
            true
        },
        Some((a, b, c, d)) => {
            let v: u32 = 16777216 * (a as u32) + 65536 * (b as u32) + 256 * (c as u32) + (
            d as u32);
            proof {
                let t = (a, b, c, d);
                assert(quad_parses_to(ip@, t.0, t.1, t.2, t.3));
                let q = choose|q: (u8, u8, u8, u8)| quad_parses_to(ip@, q.0, q.1, q.2, q.3);
                lemma_quad_parse_unique(ip@, a, b, c, d, q.0, q.1, q.2, q.3);
                assert(v as int == ipv4_value(a, b, c, d));
            }
            v == 0 || (167772160 <= v && v <= 184549375) || (1681915904 <= v && v
                <= 1686110207) || (2130706432 <= v && v <= 2147483647) || (2851995648 <= v
                && v <= 2852061183) || (2886729728 <= v && v <= 2887778303) || (3232235520
                <= v && v <= 3232301055) || v >= 3758096384
        },
    }
}

/// Every address inside a reserved range is classified local: the zero
/// address and the 10.0.0.0/8, 100.64.0.0/10, 127.0.0.0/8, 169.254.0.0/16,
/// 172.16.0.0/12, 192.168.0.0/16 and 224.0.0.0-and-above ranges.
pub proof fn lemma_reserved_ranges_are_local(s: Seq<char>, a: u8, b: u8, c: u8, d: u8)
    requires
        quad_parses_to(s, a, b, c, d),
        a == 10 || a == 127 || (a == 100 && 64 <= b <= 127) || (a == 169 && b == 254) || (a
            == 172 && 16 <= b <= 31) || (a == 192 && b == 168) || a >= 224 || (a == 0 && b
            == 0 && c == 0 && d == 0),
    ensures
        spec_is_local(s),
{
    let t = (a, b, c, d);
    assert(quad_parses_to(s, t.0, t.1, t.2, t.3));
    let q = choose|q: (u8, u8, u8, u8)| quad_parses_to(s, q.0, q.1, q.2, q.3);
    lemma_quad_parse_unique(s, a, b, c, d, q.0, q.1, q.2, q.3);
    assert(is_local_value(ipv4_value(a, b, c, d)));
}

} // verus!
