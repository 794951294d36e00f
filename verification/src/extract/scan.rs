//! The balanced-bracket scanning that lowers type strings: reference
//! stripping, path segments, top-level splitting and generic argument lists.
//!
//! Every function works on a window `s[lo..hi]` of a string's characters and
//! answers in positions within `s`, so nested parts are parsed without
//! copying.

use vstd::prelude::*;
use crate::text::{
    char_is_whitespace, is_ws, lemma_trim_len, lemma_trim_start_first, trim, trim_bounds, trim_start,
};

verus! {

broadcast use vstd::seq_lib::group_seq_properties;

/// Whether `c` is alphanumeric in Unicode's sense (`char::is_alphanumeric`).
pub uninterp spec fn alnum(c: char) -> bool;

/// `char::is_alphanumeric`: the Unicode `Alphabetic` property or a numeric
/// general category. The contract names the result and states only the ASCII
/// part of it; beyond ASCII the classification follows std's Unicode tables.
#[verifier::external_body]
fn char_is_alphanumeric(c: char) -> (r: bool)
    ensures
        r == alnum(c),
        (c as int) < 128 ==> (r == (('a' <= c && c <= 'z') || ('A' <= c && c <= 'Z') || ('0' <= c
            && c <= '9'))),
{
    c.is_alphanumeric()
}

/// A character of a lifetime name.
pub open spec fn is_word_char(c: char) -> bool {
    alnum(c) || c == '_'
}

/// `t` without its leading lifetime-name characters.
pub open spec fn skip_word(t: Seq<char>) -> Seq<char>
    decreases t.len(),
{
    if t.len() > 0 && is_word_char(t[0]) {
        skip_word(t.drop_first())
    } else {
        t
    }
}

/// The keyword `mut` and the space after it.
pub open spec fn mut_keyword() -> Seq<char> {
    seq!['m', 'u', 't', ' ']
}

pub proof fn lemma_skip_word_len(t: Seq<char>)
    ensures
        skip_word(t).len() <= t.len(),
    decreases t.len(),
{
    if t.len() > 0 && is_word_char(t[0]) {
        lemma_skip_word_len(t.drop_first());
    }
}

/// One `&` marker stripped from the front of `t`, with the whitespace, the
/// lifetime and the `mut ` that follow it.
pub open spec fn strip_one_ref(t: Seq<char>) -> Seq<char> {
    let t1 = trim_start(t.drop_first());
    let t2 = if t1.len() > 0 && t1[0] == '\'' {
        trim_start(skip_word(t1.drop_first()))
    } else {
        t1
    };
    if t2.len() >= 4 && t2.subrange(0, 4) == mut_keyword() {
        trim_start(t2.subrange(4, t2.len() as int))
    } else {
        t2
    }
}

pub proof fn lemma_strip_one_ref_shorter(t: Seq<char>)
    requires
        t.len() > 0,
    ensures
        strip_one_ref(t).len() < t.len(),
{
    let t1 = trim_start(t.drop_first());
    lemma_trim_start_first(t.drop_first());
    if t1.len() > 0 && t1[0] == '\'' {
        lemma_skip_word_len(t1.drop_first());
        lemma_trim_start_first(skip_word(t1.drop_first()));
    }
    let t2 = if t1.len() > 0 && t1[0] == '\'' {
        trim_start(skip_word(t1.drop_first()))
    } else {
        t1
    };
    if t2.len() >= 4 && t2.subrange(0, 4) == mut_keyword() {
        lemma_trim_start_first(t2.subrange(4, t2.len() as int));
    }
}

/// `t` without its leading reference markers (`&`, `&mut`) and lifetimes.
pub open spec fn strip_refs(t: Seq<char>) -> Seq<char>
    decreases t.len(),
{
    if t.len() > 0 && t[0] == '&' {
        proof {
            lemma_strip_one_ref_shorter(t);
        }
        strip_refs(strip_one_ref(t))
    } else {
        t
    }
}

/// The index after the leading whitespace of `s[lo..hi]`.
pub fn trim_start_index(s: &str, lo: usize, hi: usize) -> (r: usize)
    requires
        lo <= hi <= s@.len(),
    ensures
        lo <= r <= hi,
        s@.subrange(r as int, hi as int) == trim_start(s@.subrange(lo as int, hi as int)),
{
    let mut a = lo;
    while a < hi && char_is_whitespace(s.get_char(a))
        invariant
            lo <= a <= hi <= s@.len(),
            trim_start(s@.subrange(lo as int, hi as int)) == trim_start(
                s@.subrange(a as int, hi as int),
            ),
        decreases hi - a,
    {
        proof {
            assert(s@.subrange(a as int, hi as int).drop_first() =~= s@.subrange(a + 1, hi as int));
        }
        a = a + 1;
    }
    proof {
        let t = s@.subrange(a as int, hi as int);
        if a < hi {
            assert(t[0] == s@[a as int]);
        }
    }
    a
}

/// The index after the leading lifetime-name characters of `s[lo..hi]`.
fn skip_word_index(s: &str, lo: usize, hi: usize) -> (r: usize)
    requires
        lo <= hi <= s@.len(),
    ensures
        lo <= r <= hi,
        s@.subrange(r as int, hi as int) == skip_word(s@.subrange(lo as int, hi as int)),
{
    let mut a = lo;
    while a < hi
        invariant
            lo <= a <= hi <= s@.len(),
            skip_word(s@.subrange(lo as int, hi as int)) == skip_word(s@.subrange(a as int, hi as int)),
        decreases hi - a,
    {
        let c = s.get_char(a);
        if !(char_is_alphanumeric(c) || c == '_') {
            proof {
                assert(s@.subrange(a as int, hi as int)[0] == c);
            }
            return a;
        }
        proof {
            assert(s@.subrange(a as int, hi as int).drop_first() =~= s@.subrange(a + 1, hi as int));
        }
        a = a + 1;
    }
    a
}

/// The start of `strip_refs(s[lo..hi])` within `s`.
pub fn strip_refs_index(s: &str, lo: usize, hi: usize) -> (r: usize)
    requires
        lo <= hi <= s@.len(),
    ensures
        lo <= r <= hi,
        s@.subrange(r as int, hi as int) == strip_refs(s@.subrange(lo as int, hi as int)),
{
    let mut a = lo;
    while a < hi && s.get_char(a) == '&'
        invariant
            lo <= a <= hi <= s@.len(),
            strip_refs(s@.subrange(lo as int, hi as int)) == strip_refs(s@.subrange(a as int, hi as int)),
        decreases hi - a,
    {
        let ghost t = s@.subrange(a as int, hi as int);
        proof {
            assert(t[0] == '&');
            assert(t.drop_first() =~= s@.subrange(a + 1, hi as int));
        }
        let b = trim_start_index(s, a + 1, hi);
        let ghost t1 = s@.subrange(b as int, hi as int);
        let c = if b < hi && s.get_char(b) == '\'' {
            let w = skip_word_index(s, b + 1, hi);
            proof {
                assert(t1[0] == '\'');
                assert(t1.drop_first() =~= s@.subrange(b + 1, hi as int));
            }
            trim_start_index(s, w, hi)
        } else {
            proof {
                if b < hi {
                    assert(t1[0] == s@[b as int]);
                }
            }
            b
        };
        let ghost t2 = s@.subrange(c as int, hi as int);
        assert(t2 == (if t1.len() > 0 && t1[0] == '\'' {
            trim_start(skip_word(t1.drop_first()))
        } else {
            t1
        }));
        let d = if hi - c >= 4 && s.get_char(c) == 'm' && s.get_char(c + 1) == 'u' && s.get_char(c
            + 2) == 't' && s.get_char(c + 3) == ' ' {
            proof {
                assert(t2.subrange(0, 4) =~= mut_keyword());
                assert(t2.subrange(4, t2.len() as int) =~= s@.subrange(c + 4, hi as int));
            }
            trim_start_index(s, c + 4, hi)
        } else {
            proof {
                if t2.len() >= 4 && t2.subrange(0, 4) == mut_keyword() {
                    assert(t2.subrange(0, 4)[0] == s@[c as int]);
                    assert(t2.subrange(0, 4)[1] == s@[c + 1]);
                    assert(t2.subrange(0, 4)[2] == s@[c + 2]);
                    assert(t2.subrange(0, 4)[3] == s@[c + 3]);
                }
            }
            c
        };
        proof {
            assert(s@.subrange(d as int, hi as int) == strip_one_ref(t));
            lemma_strip_one_ref_shorter(t);
        }
        a = d;
    }
    proof {
        let t = s@.subrange(a as int, hi as int);
        if a < hi {
            assert(t[0] == s@[a as int]);
        }
    }
    a
}

// ---------------------------------------------------------------------------
// Path segments.
// ---------------------------------------------------------------------------

/// A `::` separator starts at `p`.
pub open spec fn sep_at(t: Seq<char>, p: int) -> bool {
    0 <= p && p + 1 < t.len() && t[p] == ':' && t[p + 1] == ':'
}

/// `p` starts the last `::` separator of `t`.
pub open spec fn last_sep(t: Seq<char>, p: int) -> bool {
    sep_at(t, p) && forall|q: int| p < q ==> !sep_at(t, q)
}

/// Where the final `::`-separated segment of `t` starts.
pub open spec fn segment_start(t: Seq<char>) -> int {
    if exists|p: int| last_sep(t, p) {
        (choose|p: int| last_sep(t, p)) + 2
    } else {
        0
    }
}

/// The final `::`-separated path segment of `t`, trimmed.
pub open spec fn last_segment(t: Seq<char>) -> Seq<char> {
    trim(t.subrange(segment_start(t), t.len() as int))
}

/// The bounds of the final `::`-separated segment of `s[lo..hi]`, trimmed.
pub fn last_segment_bounds(s: &str, lo: usize, hi: usize) -> (r: (usize, usize))
    requires
        lo <= hi <= s@.len(),
    ensures
        lo <= r.0 <= r.1 <= hi,
        s@.subrange(r.0 as int, r.1 as int) == last_segment(s@.subrange(lo as int, hi as int)),
{
    let ghost t = s@.subrange(lo as int, hi as int);
    let mut p = hi;
    let mut start = lo;
    while p - lo >= 2
        invariant
            lo <= hi <= s@.len(),
            t == s@.subrange(lo as int, hi as int),
            lo <= p <= hi,
            start == lo,
            forall|q: int| p - 1 - lo <= q ==> !sep_at(t, q),
        decreases p,
    {
        if s.get_char(p - 2) == ':' && s.get_char(p - 1) == ':' {
            proof {
                let k = p - 2 - lo;
                assert(t[k] == ':' && t[k + 1] == ':');
                assert(sep_at(t, k));
                assert forall|q: int| k < q implies !sep_at(t, q) by {
                    if q == k + 1 {
                        if sep_at(t, q) {
                        }
                    }
                }
                assert(last_sep(t, k));
                let c = choose|q: int| last_sep(t, q);
                assert(c == k) by {
                    if c < k {
                        assert(!sep_at(t, k));
                    } else if c > k {
                        assert(!sep_at(t, c));
                    }
                }
                assert(segment_start(t) == k + 2);
                assert(t.subrange(k + 2, t.len() as int) =~= s@.subrange(p as int, hi as int));
            }
            return trim_bounds(s, p, hi);
        }
        proof {
            let k = p - 2 - lo;
            assert(!sep_at(t, k));
        }
        p = p - 1;
    }
    proof {
        assert forall|q: int| 0 <= q implies !sep_at(t, q) by {
            if q < p - 1 - lo {
                assert(q + 1 >= t.len());
            }
        }
        assert(!(exists|q: int| last_sep(t, q)));
        assert(t.subrange(0, t.len() as int) =~= t);
    }
    trim_bounds(s, start, hi)
}

// ---------------------------------------------------------------------------
// Top-level splitting.
// ---------------------------------------------------------------------------

/// An opening bracket: `<`, `(` or `[`.
pub open spec fn opens(c: char) -> bool {
    c == '<' || c == '(' || c == '['
}

/// A closing bracket: `>`, `)` or `]`.
pub open spec fn closes(c: char) -> bool {
    c == '>' || c == ')' || c == ']'
}

/// The state of a left-to-right scan: the parts closed so far, the bracket
/// depth and where the current part starts.
pub struct SplitScan {
    pub parts: Seq<Seq<char>>,
    pub depth: int,
    pub start: int,
}

/// The scan state after the first `n` characters of `t`.
pub open spec fn split_scan(t: Seq<char>, delim: char, n: nat) -> SplitScan
    decreases n,
{
    if n == 0 {
        SplitScan { parts: Seq::empty(), depth: 0, start: 0 }
    } else {
        let prev = split_scan(t, delim, (n - 1) as nat);
        let c = t[n - 1];
        if opens(c) {
            SplitScan { parts: prev.parts, depth: prev.depth + 1, start: prev.start }
        } else if closes(c) {
            SplitScan { parts: prev.parts, depth: prev.depth - 1, start: prev.start }
        } else if c == delim && prev.depth == 0 {
            SplitScan {
                parts: prev.parts.push(trim(t.subrange(prev.start, n - 1))),
                depth: prev.depth,
                start: n as int,
            }
        } else {
            prev
        }
    }
}

/// `t` split on the occurrences of `delim` that are not nested inside `<>`,
/// `()` or `[]`, each part trimmed.
pub open spec fn split_top_level(t: Seq<char>, delim: char) -> Seq<Seq<char>> {
    let st = split_scan(t, delim, t.len());
    st.parts.push(trim(t.subrange(st.start, t.len() as int)))
}

/// `ranges` locate the sequences `parts` within `s[lo..hi]`.
pub open spec fn locates(s: Seq<char>, lo: int, hi: int, ranges: Seq<(usize, usize)>, parts: Seq<Seq<char>>) -> bool {
    &&& ranges.len() == parts.len()
    &&& forall|k: int|
        0 <= k < ranges.len() ==> lo <= (#[trigger] ranges[k]).0 <= ranges[k].1 <= hi && s.subrange(
            ranges[k].0 as int,
            ranges[k].1 as int,
        ) == parts[k]
}

proof fn lemma_split_scan_bounds(t: Seq<char>, delim: char, n: nat)
    requires
        n <= t.len(),
    ensures
        -(n as int) <= split_scan(t, delim, n).depth <= n,
        0 <= split_scan(t, delim, n).start <= n,
    decreases n,
{
    if n > 0 {
        lemma_split_scan_bounds(t, delim, (n - 1) as nat);
    }
}

/// The trimmed parts of `s[lo..hi]` between top-level occurrences of `delim`.
pub fn split_top_level_ranges(s: &str, lo: usize, hi: usize, delim: char) -> (r: Vec<(usize, usize)>)
    requires
        lo <= hi <= s@.len(),
    ensures
        locates(s@, lo as int, hi as int, r@, split_top_level(s@.subrange(lo as int, hi as int), delim)),
{
    let ghost t = s@.subrange(lo as int, hi as int);
    let mut parts: Vec<(usize, usize)> = Vec::new();
    let mut depth: i128 = 0;
    let mut start = lo;
    let mut i = lo;
    while i < hi
        invariant
            lo <= i <= hi <= s@.len(),
            t == s@.subrange(lo as int, hi as int),
            lo <= start <= i,
            depth as int == split_scan(t, delim, (i - lo) as nat).depth,
            start - lo == split_scan(t, delim, (i - lo) as nat).start,
            -((i - lo) as int) <= depth <= (i - lo) as int,
            locates(s@, lo as int, hi as int, parts@, split_scan(t, delim, (i - lo) as nat).parts),
        decreases hi - i,
    {
        let c = s.get_char(i);
        let ghost n = (i - lo + 1) as nat;
        proof {
            assert(t[n - 1] == c);
        }
        if c == '<' || c == '(' || c == '[' {
            depth = depth + 1;
        } else if c == '>' || c == ')' || c == ']' {
            depth = depth - 1;
        } else if c == delim && depth == 0 {
            let b = trim_bounds(s, start, i);
            proof {
                assert(t.subrange(start - lo, n - 1) =~= s@.subrange(start as int, i as int));
            }
            parts.push(b);
            start = i + 1;
        }
        i = i + 1;
    }
    let b = trim_bounds(s, start, hi);
    proof {
        assert(t.subrange(start - lo, t.len() as int) =~= s@.subrange(start as int, hi as int));
    }
    parts.push(b);
    parts
}

/// Stripping reference markers never lengthens a type string.
pub proof fn lemma_strip_refs_len(t: Seq<char>)
    ensures
        strip_refs(t).len() <= t.len(),
    decreases t.len(),
{
    if t.len() > 0 && t[0] == '&' {
        lemma_strip_one_ref_shorter(t);
        lemma_strip_refs_len(strip_one_ref(t));
    }
}

proof fn lemma_split_scan_parts_len(t: Seq<char>, delim: char, n: nat)
    requires
        n <= t.len(),
    ensures
        0 <= split_scan(t, delim, n).start <= n,
        forall|k: int|
            0 <= k < split_scan(t, delim, n).parts.len() ==> (#[trigger] split_scan(
                t,
                delim,
                n,
            ).parts[k]).len() <= n,
    decreases n,
{
    if n > 0 {
        lemma_split_scan_parts_len(t, delim, (n - 1) as nat);
        let prev = split_scan(t, delim, (n - 1) as nat);
        lemma_trim_len(t.subrange(prev.start, n - 1));
    }
}

/// The bracket depth after the first `n` characters of `t`.
pub open spec fn depth_at(t: Seq<char>, n: nat) -> int
    decreases n,
{
    if n == 0 {
        0
    } else {
        let d = depth_at(t, (n - 1) as nat);
        if opens(t[n - 1]) {
            d + 1
        } else if closes(t[n - 1]) {
            d - 1
        } else {
            d
        }
    }
}

/// Every comma of `t` stands inside brackets.
pub open spec fn no_top_level_comma(t: Seq<char>) -> bool {
    forall|k: int| 0 <= k < t.len() && t[k] == ',' ==> depth_at(t, k as nat) != 0
}

/// Scanning a string without top-level commas closes no part.
proof fn lemma_scan_without_comma(t: Seq<char>, n: nat)
    requires
        no_top_level_comma(t),
        n <= t.len(),
    ensures
        split_scan(t, ',', n) == (SplitScan { parts: Seq::empty(), depth: depth_at(t, n), start: 0 }),
    decreases n,
{
    if n > 0 {
        lemma_scan_without_comma(t, (n - 1) as nat);
    }
}

/// A string without top-level commas splits into one part: itself, trimmed.
pub proof fn lemma_split_without_comma(t: Seq<char>)
    requires
        no_top_level_comma(t),
    ensures
        split_top_level(t, ',') == seq![trim(t)],
{
    lemma_scan_without_comma(t, t.len());
    assert(t.subrange(0, t.len() as int) =~= t);
    assert(split_top_level(t, ',') =~= seq![trim(t)]);
}

/// Scanning `a,b`, where the comma is the only top-level one, closes the
/// part `a` at the comma and nothing else.
proof fn lemma_scan_two(a: Seq<char>, b: Seq<char>, n: nat)
    requires
        no_top_level_comma(a),
        depth_at(a, a.len()) == 0,
        no_top_level_comma(b),
        n <= a.len() + 1 + b.len(),
    ensures
        n <= a.len() ==> split_scan(a + seq![','] + b, ',', n) == (SplitScan {
            parts: Seq::empty(),
            depth: depth_at(a, n),
            start: 0,
        }),
        n > a.len() ==> split_scan(a + seq![','] + b, ',', n) == (SplitScan {
            parts: seq![trim(a)],
            depth: depth_at(b, (n - a.len() - 1) as nat),
            start: a.len() + 1int,
        }),
    decreases n,
{
    let u = a + seq![','] + b;
    if n > 0 {
        lemma_scan_two(a, b, (n - 1) as nat);
        if n <= a.len() {
            assert(u[n - 1] == a[n - 1]);
        } else if n == a.len() + 1 {
            assert(u[n - 1] == ',');
            assert(u.subrange(0, a.len() as int) =~= a);
        } else {
            assert(u[n - 1] == b[n - a.len() - 2]);
        }
    }
}

/// A string `a,b` whose only top-level comma is the one between `a` and `b`
/// splits into `a` and `b`, each trimmed.
pub proof fn lemma_split_two(a: Seq<char>, b: Seq<char>)
    requires
        no_top_level_comma(a),
        depth_at(a, a.len()) == 0,
        no_top_level_comma(b),
    ensures
        split_top_level(a + seq![','] + b, ',') == seq![trim(a), trim(b)],
{
    let u = a + seq![','] + b;
    lemma_scan_two(a, b, u.len());
    assert(u.subrange(a.len() + 1int, u.len() as int) =~= b);
    assert(split_top_level(u, ',') =~= seq![trim(a), trim(b)]);
}

/// Every top-level part is at most as long as the string it was split from.
pub proof fn lemma_split_top_level_len(t: Seq<char>, delim: char)
    ensures
        forall|k: int|
            0 <= k < split_top_level(t, delim).len() ==> (#[trigger] split_top_level(t, delim)[k]).len()
                <= t.len(),
{
    lemma_split_scan_parts_len(t, delim, t.len());
    let st = split_scan(t, delim, t.len());
    lemma_trim_len(t.subrange(st.start, t.len() as int));
}

// ---------------------------------------------------------------------------
// Generics.
// ---------------------------------------------------------------------------

/// `k` is the first position of `c` in `t`.
pub open spec fn first_at(t: Seq<char>, c: char, k: int) -> bool {
    0 <= k < t.len() && t[k] == c && forall|j: int| 0 <= j < k ==> t[j] != c
}

/// The first position of `c` in `t`, if any.
pub open spec fn find_char(t: Seq<char>, c: char) -> Option<int> {
    if exists|k: int| first_at(t, c, k) {
        Some(choose|k: int| first_at(t, c, k))
    } else {
        None
    }
}

/// A generic type `Base<A, B, ...>` split into its trimmed base path and its
/// top-level arguments; `None` when `t` is not an angle-bracketed generic with
/// a non-empty base.
pub open spec fn split_generic(t: Seq<char>) -> Option<(Seq<char>, Seq<Seq<char>>)> {
    match find_char(t, '<') {
        None => None,
        Some(open) => if t.len() > 0 && t[t.len() - 1] == '>' {
            let base = trim(t.subrange(0, open));
            if base.len() == 0 {
                None
            } else {
                Some((base, split_top_level(t.subrange(open + 1, t.len() - 1), ',')))
            }
        } else {
            None
        },
    }
}

/// The position of the first `c` in `s[lo..hi]`.
pub fn find_char_index(s: &str, lo: usize, hi: usize, c: char) -> (r: Option<usize>)
    requires
        lo <= hi <= s@.len(),
    ensures
        match r {
            Some(k) => lo <= k < hi && find_char(s@.subrange(lo as int, hi as int), c) == Some(
                k - lo,
            ),
            None => find_char(s@.subrange(lo as int, hi as int), c) is None,
        },
{
    let ghost t = s@.subrange(lo as int, hi as int);
    let mut i = lo;
    while i < hi
        invariant
            lo <= i <= hi <= s@.len(),
            t == s@.subrange(lo as int, hi as int),
            forall|j: int| 0 <= j < i - lo ==> t[j] != c,
        decreases hi - i,
    {
        if s.get_char(i) == c {
            proof {
                let k = i - lo;
                assert(first_at(t, c, k));
                let w = choose|q: int| first_at(t, c, q);
                assert(w == k) by {
                    if w < k {
                        assert(t[w] != c);
                    } else if w > k {
                        assert(t[k] != c);
                    }
                }
            }
            return Some(i);
        }
        i = i + 1;
    }
    None
}

/// The base bounds and argument ranges of `split_generic(s[lo..hi])`.
pub fn split_generic_ranges(s: &str, lo: usize, hi: usize) -> (r: Option<((usize, usize), Vec<(usize, usize)>)>)
    requires
        lo <= hi <= s@.len(),
    ensures
        match split_generic(s@.subrange(lo as int, hi as int)) {
            None => r is None,
            Some((base, args)) => r matches Some((b, a)) && lo <= b.0 <= b.1 <= hi && s@.subrange(
                b.0 as int,
                b.1 as int,
            ) == base && locates(s@, lo + 1, hi - 1, a@, args),
        },
{
    let ghost t = s@.subrange(lo as int, hi as int);
    let open = match find_char_index(s, lo, hi, '<') {
        None => return None,
        Some(k) => k,
    };
    if !(hi > lo && s.get_char(hi - 1) == '>') {
        proof {
            if t.len() > 0 {
                assert(t[t.len() - 1] == s@[hi - 1]);
            }
        }
        return None;
    }
    proof {
        assert(t[t.len() - 1] == s@[hi - 1]);
        assert(t[open - lo] == '<');
    }
    let base = trim_bounds(s, lo, open);
    proof {
        assert(t.subrange(0, open - lo) =~= s@.subrange(lo as int, open as int));
    }
    if base.0 == base.1 {
        return None;
    }
    let args = split_top_level_ranges(s, open + 1, hi - 1, ',');
    proof {
        assert(t.subrange(open - lo + 1, t.len() - 1) =~= s@.subrange(open + 1, hi - 1));
        let tl = split_top_level(s@.subrange(open + 1, hi - 1), ',');
        assert forall|k: int| 0 <= k < args@.len() implies lo + 1 <= (#[trigger] args@[k]).0 <= args@[k].1 <= hi - 1
            && s@.subrange(args@[k].0 as int, args@[k].1 as int) == tl[k] by {}
    }
    Some((base, args))
}

} // verus!
