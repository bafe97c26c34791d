//! Extraction of the candidate address from one line of traceroute text.
//!
//! A line is split on runs of whitespace. The first two fields (hop index
//! and hostname) are discarded; the third field is the candidate. A missing
//! third field, the timeout marker `*`, and a candidate too short to carry
//! its two delimiting characters all yield no address: the line is skipped,
//! never an error. Otherwise the delimiters (first and last character) are
//! stripped and the bare address is returned.

use vstd::prelude::*;

verus! {

/// An ASCII whitespace character.
pub open spec fn is_wsp(c: char) -> bool {
    c == ' ' || c == '\t' || c == '\n' || c == '\r' || c == '\u{0c}'
}

/// First index at or after `i` that does not hold whitespace.
pub open spec fn skip_ws(s: Seq<char>, i: int) -> int
    decreases s.len() - i,
{
    if i < 0 || i >= s.len() {
        i
    } else if is_wsp(s[i]) {
        skip_ws(s, i + 1)
    } else {
        i
    }
}

/// First index at or after `i` that holds whitespace (or the length).
pub open spec fn token_end(s: Seq<char>, i: int) -> int
    decreases s.len() - i,
{
    if i < 0 || i >= s.len() {
        i
    } else if is_wsp(s[i]) {
        i
    } else {
        token_end(s, i + 1)
    }
}

/// Start of the third whitespace-delimited field of `s`.
pub open spec fn third_field_start(s: Seq<char>) -> int {
    let a0 = skip_ws(s, 0);
    let e0 = token_end(s, a0);
    let a1 = skip_ws(s, e0);
    let e1 = token_end(s, a1);
    skip_ws(s, e1)
}

/// The third whitespace-delimited field of `s`, when the line has one.
pub open spec fn spec_third_field(s: Seq<char>) -> Option<Seq<char>> {
    let a2 = third_field_start(s);
    if a2 < s.len() {
        Some(s.subrange(a2, token_end(s, a2)))
    } else {
        None
    }
}

/// The candidate address of one hop line: the third field with its two
/// delimiting characters stripped; none for a missing field, the timeout
/// marker `*`, or a field shorter than its two delimiters.
pub open spec fn spec_parse_hop(s: Seq<char>) -> Option<Seq<char>> {
    match spec_third_field(s) {
        None => None,
        Some(t) => if t.len() == 1 && t[0] == '*' {
            None
        } else if t.len() < 2 {
            None
        } else {
            Some(t.subrange(1, t.len() - 1))
        },
    }
}

/// A field never ends before it starts.
proof fn lemma_token_end_ge(s: Seq<char>, i: int)
    requires
        0 <= i,
    ensures
        token_end(s, i) >= i,
    decreases s.len() - i,
{
    if i < s.len() && !is_wsp(s[i]) {
        lemma_token_end_ge(s, i + 1);
    }
}

/// Whether `c` is ASCII whitespace.
fn is_wsp_char(c: char) -> (r: bool)
    ensures
        r == is_wsp(c),
{
    c == ' ' || c == '\t' || c == '\n' || c == '\r' || c == '\u{0c}'
}

/// Scans past whitespace, starting at `from`.
fn scan_ws(s: &str, from: usize) -> (r: usize)
    requires
        from <= s@.len(),
    ensures
        from <= r <= s@.len(),
        r as int == skip_ws(s@, from as int),
        r < s@.len() ==> !is_wsp(s@[r as int]),
{
    let n = s.unicode_len();
    let mut i: usize = from;
    loop
        invariant
            from <= i <= n,
            n == s@.len(),
            skip_ws(s@, from as int) == skip_ws(s@, i as int),
        decreases n - i,
    {
        if i >= n {
            return i;
        }
        let c = s.get_char(i);
        if is_wsp_char(c) {
            i = i + 1;
        } else {
            return i;
        }
    }
}

/// Scans to the end of the field that starts at `from`.
fn scan_field(s: &str, from: usize) -> (r: usize)
    requires
        from <= s@.len(),
    ensures
        from <= r <= s@.len(),
        r as int == token_end(s@, from as int),
        from < s@.len() && !is_wsp(s@[from as int]) ==> r > from,
{
    proof {
        if from < s@.len() && !is_wsp(s@[from as int]) {
            lemma_token_end_ge(s@, from as int + 1);
        }
    }
    let n = s.unicode_len();
    let mut i: usize = from;
    loop
        invariant
            from <= i <= n,
            n == s@.len(),
            token_end(s@, from as int) == token_end(s@, i as int),
            from < n && !is_wsp(s@[from as int]) ==> token_end(s@, from as int) > from,
        decreases n - i,
    {
        if i >= n {
            return i;
        }
        let c = s.get_char(i);
        if is_wsp_char(c) {
            return i;
        } else {
            i = i + 1;
        }
    }
}

/// Parses one hop line into its candidate address, or nothing when the
/// line carries none (timeout marker, missing or too-short field).
pub fn parse_hop_line(line: &str) -> (r: Option<String>)
    ensures
        r is Some <==> spec_parse_hop(line@) is Some,
        r is Some ==> r->0@ == spec_parse_hop(line@)->0,
{
    let n = line.unicode_len();
    let a0 = scan_ws(line, 0);
    let e0 = scan_field(line, a0);
    let a1 = scan_ws(line, e0);
    let e1 = scan_field(line, a1);
    let a2 = scan_ws(line, e1);
    if a2 >= n {
        return None;
    }
    let e2 = scan_field(line, a2);
    let flen = e2 - a2;
    if flen == 1 && line.get_char(a2) == '*' {
        return None;
    }
    if flen < 2 {
        return None;
    }
    let bare = line.substring_char(a2 + 1, e2 - 1);
    proof {
        let t = spec_third_field(line@)->0;
        assert(t == line@.subrange(a2 as int, e2 as int));
        assert(bare@ =~= t.subrange(1, t.len() - 1));
    }
    Some(bare.to_owned())
}

} // verus!
