//! Request-line parsing.
//!
//! A request is accepted when it contains, anywhere, the pattern
//! `GET <path> HTTP`: the literal `GET `, then a maximal run of
//! non-whitespace characters beginning with `/` and at least two characters
//! long, then the literal ` HTTP` (anything may follow). The captured path
//! has every `%20` replaced by a space; no other percent-decoding is
//! performed.

use vstd::prelude::*;

verus! {

/// A whitespace character (the Unicode `White_Space` set); a path may not
/// contain one, and the run of path characters ends at the first one.
pub open spec fn is_ws(c: char) -> bool {
    c == ' ' || c == '\t' || c == '\n' || c == '\r' || c == '\u{b}' || c == '\u{c}'
        || c == '\u{85}' || c == '\u{a0}' || c == '\u{1680}' || c == '\u{2000}'
        || c == '\u{2001}' || c == '\u{2002}' || c == '\u{2003}' || c == '\u{2004}'
        || c == '\u{2005}' || c == '\u{2006}' || c == '\u{2007}' || c == '\u{2008}'
        || c == '\u{2009}' || c == '\u{200a}' || c == '\u{2028}' || c == '\u{2029}'
        || c == '\u{202f}' || c == '\u{205f}' || c == '\u{3000}'
}

/// Executable test for [`is_ws`].
fn char_is_ws(c: char) -> (r: bool)
    ensures
        r == is_ws(c),
{
    c == ' ' || c == '\t' || c == '\n' || c == '\r' || c == '\u{b}' || c == '\u{c}'
        || c == '\u{85}' || c == '\u{a0}' || c == '\u{1680}' || c == '\u{2000}'
        || c == '\u{2001}' || c == '\u{2002}' || c == '\u{2003}' || c == '\u{2004}'
        || c == '\u{2005}' || c == '\u{2006}' || c == '\u{2007}' || c == '\u{2008}'
        || c == '\u{2009}' || c == '\u{200a}' || c == '\u{2028}' || c == '\u{2029}'
        || c == '\u{202f}' || c == '\u{205f}' || c == '\u{3000}'
}

/// The end of the run of non-whitespace characters starting at `j`: the
/// least index at or after `j` that holds whitespace, or the length of `s`.
pub open spec fn run_end(s: Seq<char>, j: int) -> int
    recommends
        0 <= j <= s.len(),
    decreases s.len() - j,
{
    if j < 0 || j >= s.len() {
        s.len() as int
    } else if is_ws(s[j]) {
        j
    } else {
        run_end(s, j + 1)
    }
}

/// `run_end` stays within bounds, every character before it is
/// non-whitespace, and the character at it (if any) is whitespace.
proof fn lemma_run_end_bounds(s: Seq<char>, j: int)
    requires
        0 <= j <= s.len(),
    ensures
        j <= run_end(s, j) <= s.len(),
        forall|k: int| j <= k < run_end(s, j) ==> !is_ws(#[trigger] s[k]),
        run_end(s, j) < s.len() ==> is_ws(s[run_end(s, j)]),
    decreases s.len() - j,
{
    if j < s.len() && !is_ws(s[j]) {
        lemma_run_end_bounds(s, j + 1);
    }
}

/// `run_end` is pinned by its characterization: a whitespace-free stretch
/// from `j` to `m` that ends at `m` (whitespace there, or the end of `s`).
proof fn lemma_run_end_is(s: Seq<char>, j: int, m: int)
    requires
        0 <= j <= m <= s.len(),
        forall|k: int| j <= k < m ==> !is_ws(#[trigger] s[k]),
        m < s.len() ==> is_ws(s[m]),
    ensures
        run_end(s, j) == m,
    decreases m - j,
{
    if j < m {
        lemma_run_end_is(s, j + 1, m);
    }
}

/// The request pattern matches at position `i` of `s`: `GET ` stands at
/// `i`, a non-whitespace run of at least two characters beginning with `/`
/// follows, and ` HTTP` stands right after the run.
pub open spec fn match_at(s: Seq<char>, i: int) -> bool {
    &&& 0 <= i
    &&& i + 4 < s.len()
    &&& s[i] == 'G' && s[i + 1] == 'E' && s[i + 2] == 'T' && s[i + 3] == ' '
    &&& s[i + 4] == '/'
    &&& run_end(s, i + 4) >= i + 6
    &&& run_end(s, i + 4) + 5 <= s.len()
    &&& s[run_end(s, i + 4)] == ' '
    &&& s[run_end(s, i + 4) + 1] == 'H'
    &&& s[run_end(s, i + 4) + 2] == 'T'
    &&& s[run_end(s, i + 4) + 3] == 'T'
    &&& s[run_end(s, i + 4) + 4] == 'P'
}

/// The path captured by a match at `i`: the whole non-whitespace run.
pub open spec fn capture(s: Seq<char>, i: int) -> Seq<char>
    recommends
        match_at(s, i),
{
    s.subrange(i + 4, run_end(s, i + 4))
}

/// The position of the leftmost match at or after `i`, if any.
pub open spec fn first_match(s: Seq<char>, i: int) -> Option<int>
    recommends
        0 <= i,
    decreases s.len() - i,
{
    if i < 0 || i >= s.len() {
        None
    } else if match_at(s, i) {
        Some(i)
    } else {
        first_match(s, i + 1)
    }
}

/// Percent-space decoding: every `%20`, scanned left to right without
/// overlap, becomes one space; everything else is kept.
pub open spec fn decode_pct(s: Seq<char>) -> Seq<char>
    decreases s.len(),
{
    if s.len() == 0 {
        Seq::empty()
    } else if s.len() >= 3 && s[0] == '%' && s[1] == '2' && s[2] == '0' {
        seq![' '] + decode_pct(s.skip(3))
    } else {
        seq![s[0]] + decode_pct(s.skip(1))
    }
}

/// What parsing a request returns: the decoded path captured by the
/// leftmost match, or nothing when no position matches.
pub open spec fn parse_req(s: Seq<char>) -> Option<Seq<char>> {
    match first_match(s, 0) {
        Some(i) => Some(decode_pct(capture(s, i))),
        None => None,
    }
}

/// The characters of `s`, as a vector.
pub(crate) fn str_chars(s: &str) -> (v: Vec<char>)
    ensures
        v@ == s@,
{
    let n = s.unicode_len();
    let mut v: Vec<char> = Vec::new();
    let mut j: usize = 0;
    while j < n
        invariant
            n as nat == s@.len(),
            j <= n,
            v@ == s@.subrange(0, j as int),
        decreases n - j,
    {
        let c = s.get_char(j);
        v.push(c);
        j += 1;
        assert(v@ =~= s@.subrange(0, j as int));
    }
    assert(v@ =~= s@);
    v
}

/// The end of the non-whitespace run of `v` starting at `j`.
fn run_end_at(v: &Vec<char>, j: usize) -> (e: usize)
    requires
        j <= v.len(),
    ensures
        e as int == run_end(v@, j as int),
        j <= e <= v.len(),
{
    let mut k = j;
    while k < v.len() && !char_is_ws(v[k])
        invariant
            j <= k <= v.len(),
            run_end(v@, j as int) == run_end(v@, k as int),
        decreases v.len() - k,
    {
        k += 1;
    }
    proof {
        lemma_run_end_bounds(v@, k as int);
    }
    k
}

/// Whether the request pattern matches at position `i` of `v`.
fn match_here(v: &Vec<char>, i: usize) -> (b: bool)
    requires
        i < v.len(),
    ensures
        b == match_at(v@, i as int),
{
    let n = v.len();
    if n - i < 5 {
        return false;
    }
    if !(v[i] == 'G' && v[i + 1] == 'E' && v[i + 2] == 'T' && v[i + 3] == ' ' && v[i + 4] == '/') {
        return false;
    }
    let e = run_end_at(v, i + 4);
    if e - i < 6 {
        return false;
    }
    if n - e < 5 {
        return false;
    }
    v[e] == ' ' && v[e + 1] == 'H' && v[e + 2] == 'T' && v[e + 3] == 'T' && v[e + 4] == 'P'
}

/// The position of the leftmost match in `v`, if any.
fn find_match(v: &Vec<char>) -> (r: Option<usize>)
    ensures
        match r {
            Some(i) => i < v.len() && match_at(v@, i as int) && first_match(v@, 0) == Some(
                i as int,
            ),
            None => first_match(v@, 0) is None,
        },
{
    let mut i: usize = 0;
    while i < v.len()
        invariant
            i <= v.len(),
            first_match(v@, 0) == first_match(v@, i as int),
        decreases v.len() - i,
    {
        if match_here(v, i) {
            return Some(i);
        }
        i += 1;
    }
    None
}

/// The characters of `s` from `a` to `e`, with every `%20` decoded to a
/// space, as a fresh string.
fn decode_range(s: &str, v: &Vec<char>, a: usize, e: usize) -> (out: String)
    requires
        v@ == s@,
        a <= e,
        e <= v.len(),
    ensures
        out@ == decode_pct(s@.subrange(a as int, e as int)),
{
    let mut out = String::new();
    let mut j = a;
    while j < e
        invariant
            v@ == s@,
            a <= j <= e,
            e <= v.len(),
            v.len() == s@.len(),
            out@ + decode_pct(s@.subrange(j as int, e as int)) == decode_pct(
                s@.subrange(a as int, e as int),
            ),
        decreases e - j,
    {
        let ghost pre = out@;
        let ghost t = s@.subrange(j as int, e as int);
        if e - j >= 3 && v[j] == '%' && v[j + 1] == '2' && v[j + 2] == '0' {
            out.append(" ");
            j += 3;
            proof {
                reveal_strlit(" ");
                assert(" "@ =~= seq![' ']);
                assert(t.skip(3) =~= s@.subrange(j as int, e as int));
                assert(decode_pct(t) == seq![' '] + decode_pct(t.skip(3)));
                assert(out@ + decode_pct(s@.subrange(j as int, e as int)) =~= pre + decode_pct(t));
            }
        } else {
            let piece = s.substring_char(j, j + 1);
            out.append(piece);
            j += 1;
            proof {
                assert(piece@ =~= seq![t[0]]);
                assert(t.skip(1) =~= s@.subrange(j as int, e as int));
                assert(decode_pct(t) == seq![t[0]] + decode_pct(t.skip(1)));
                assert(out@ + decode_pct(s@.subrange(j as int, e as int)) =~= pre + decode_pct(t));
            }
        }
    }
    proof {
        assert(s@.subrange(e as int, e as int).len() == 0);
        assert(out@ + decode_pct(s@.subrange(e as int, e as int)) =~= out@);
    }
    out
}

/// Parses a request line of the form `GET <path> HTTP...` and hands back
/// the decoded path, or nothing when the request does not follow that form
/// (the caller then owes a `400 Bad Request`).
pub fn parse_get_request(request: &str) -> (r: Option<String>)
    ensures
        match r {
            Some(path) => parse_req(request@) == Some(path@),
            None => parse_req(request@) is None,
        },
{
    let v = str_chars(request);
    match find_match(&v) {
        None => None,
        Some(i) => {
            let e = run_end_at(&v, i + 4);
            let path = decode_range(request, &v, i + 4, e);
            Some(path)
        },
    }
}

/// Percent-space decoding keeps a string without `%20` unchanged.
pub proof fn lemma_decode_pct_id(p: Seq<char>)
    requires
        forall|k: int|
            0 <= k && k + 2 < p.len() ==> !(#[trigger] p[k] == '%' && p[k + 1] == '2' && p[k + 2]
                == '0'),
    ensures
        decode_pct(p) == p,
    decreases p.len(),
{
    if p.len() == 0 {
        assert(decode_pct(p) =~= p);
    } else {
        assert forall|k: int|
            0 <= k && k + 2 < p.skip(1).len() implies !(#[trigger] p.skip(1)[k] == '%' && p.skip(
            1,
        )[k + 1] == '2' && p.skip(1)[k + 2] == '0') by {
            assert(p.skip(1)[k] == p[k + 1]);
            assert(p.skip(1)[k + 1] == p[k + 2]);
            assert(p.skip(1)[k + 2] == p[k + 3]);
        }
        lemma_decode_pct_id(p.skip(1));
        if p.len() >= 3 {
            assert(!(p[0] == '%' && p[1] == '2' && p[2] == '0'));
        }
        assert(decode_pct(p) == seq![p[0]] + p.skip(1));
        assert(seq![p[0]] + p.skip(1) =~= p);
    }
}

/// Round trip: wrapping any whitespace-free path that starts with `/`,
/// has at least two characters and holds no `%20` between `GET ` and
/// ` HTTP` parses back to exactly that path.
pub proof fn lemma_parse_round_trip(p: Seq<char>)
    requires
        p.len() >= 2,
        p[0] == '/',
        forall|k: int| 0 <= k < p.len() ==> !is_ws(#[trigger] p[k]),
        forall|k: int|
            0 <= k && k + 2 < p.len() ==> !(#[trigger] p[k] == '%' && p[k + 1] == '2' && p[k + 2]
                == '0'),
    ensures
        parse_req(seq!['G', 'E', 'T', ' '] + p + seq![' ', 'H', 'T', 'T', 'P']) == Some(p),
{
    let s = seq!['G', 'E', 'T', ' '] + p + seq![' ', 'H', 'T', 'T', 'P'];
    assert(s.len() == p.len() + 9);
    assert(forall|k: int| 0 <= k < p.len() ==> s[k + 4] == #[trigger] p[k]);
    assert forall|k: int| 4 <= k < 4 + p.len() implies !is_ws(#[trigger] s[k]) by {
        assert(s[k] == p[k - 4]);
    }
    assert(s[4 + p.len() as int] == ' ');
    lemma_run_end_is(s, 4, 4 + p.len() as int);
    assert(match_at(s, 0));
    assert(first_match(s, 0) == Some(0int));
    assert(capture(s, 0) =~= p);
    lemma_decode_pct_id(p);
}

} // verus!
