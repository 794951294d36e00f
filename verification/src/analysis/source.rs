//! Textual probes over annotated source: attribute markers, the first string
//! literal, a `component = "..."` argument, module paths, and the source
//! files of the analysed crate.

use vstd::prelude::*;
use crate::extract::scan::{find_char, find_char_index};
use crate::ordering::views;
use crate::text::{join, join_strings, push_char};

verus! {

broadcast use vstd::seq_lib::group_seq_properties;

/// `p` occurs in `t` at `k`, and nowhere before.
pub open spec fn first_sub_at(t: Seq<char>, p: Seq<char>, k: int) -> bool {
    &&& 0 <= k && k + p.len() <= t.len()
    &&& t.subrange(k, k + p.len()) == p
    &&& forall|j: int| 0 <= j < k ==> #[trigger] t.subrange(j, j + p.len()) != p
}

/// The first position of `p` in `t`, if any.
pub open spec fn find_sub(t: Seq<char>, p: Seq<char>) -> Option<int> {
    if exists|k: int| first_sub_at(t, p, k) {
        Some(choose|k: int| first_sub_at(t, p, k))
    } else {
        None
    }
}

/// The contents of the first `"..."` in `t`.
pub open spec fn first_literal_of(t: Seq<char>) -> Option<Seq<char>> {
    match find_char(t, '"') {
        None => None,
        Some(i) => {
            let rest = t.subrange(i + 1, t.len() as int);
            match find_char(rest, '"') {
                None => None,
                Some(j) => Some(rest.subrange(0, j)),
            }
        },
    }
}

/// The string literal after the first `component` in `t`.
pub open spec fn component_arg_of(t: Seq<char>) -> Option<Seq<char>> {
    match find_sub(t, "component"@) {
        None => None,
        Some(i) => first_literal_of(t.subrange(i + "component"@.len(), t.len() as int)),
    }
}

/// The first `::`-separated segment of a module path.
pub open spec fn first_segment_of(m: Seq<char>) -> Seq<char> {
    match find_sub(m, "::"@) {
        Some(i) => m.subrange(0, i),
        None => m,
    }
}

/// The view of an optional string.
pub open spec fn opt_text(o: Option<String>) -> Option<Seq<char>> {
    match o {
        Some(s) => Some(s@),
        None => None,
    }
}

/// The position of the first `p` in `s[lo..]`, relative to `lo`.
fn find_str(s: &str, lo: usize, p: &str) -> (r: Option<usize>)
    requires
        lo <= s@.len(),
    ensures
        match r {
            Some(k) => lo + k + p@.len() <= s@.len() && find_sub(s@.subrange(lo as int, s@.len() as int), p@) == Some(
                k as int,
            ),
            None => find_sub(s@.subrange(lo as int, s@.len() as int), p@) is None,
        },
{
    let n = s.unicode_len();
    let m = p.unicode_len();
    let ghost t = s@.subrange(lo as int, n as int);
    let mut k: usize = 0;
    while m <= n - lo - k
        invariant
            n == s@.len(),
            m == p@.len(),
            lo <= n,
            t == s@.subrange(lo as int, n as int),
            lo + k <= n,
            forall|j: int| 0 <= j < k ==> #[trigger] t.subrange(j, j + m) != p@,
        decreases n - lo - k,
    {
        let mut i: usize = 0;
        let mut same = true;
        while i < m && same
            invariant
                n == s@.len(),
                m == p@.len(),
                lo + k + m <= n,
                t == s@.subrange(lo as int, n as int),
                i <= m,
                same ==> forall|q: int| 0 <= q < i ==> t[k + q] == p@[q],
                !same ==> t.subrange(k as int, k + m) != p@,
            decreases m - i + (if same { 1int } else { 0int }),
        {
            if s.get_char(lo + k + i) != p.get_char(i) {
                proof {
                    assert(t.subrange(k as int, k + m)[i as int] != p@[i as int]);
                }
                same = false;
            } else {
                i = i + 1;
            }
        }
        if same {
            proof {
                assert(t.subrange(k as int, k + m) =~= p@);
                assert(first_sub_at(t, p@, k as int));
                let w = choose|w: int| first_sub_at(t, p@, w);
                assert(w == k) by {
                    if w < k {
                        assert(t.subrange(w, w + m) != p@);
                    } else if w > k {
                        assert(t.subrange(k as int, k + m) != p@);
                    }
                }
            }
            return Some(k);
        }
        assert(m > 0);
        k = k + 1;
    }
    proof {
        if exists|w: int| first_sub_at(t, p@, w) {
            let w = choose|w: int| first_sub_at(t, p@, w);
            assert(w < k);
            assert(t.subrange(w, w + m) != p@);
        }
    }
    None
}

/// The contents of the first `"..."` in `s[lo..]`.
fn literal_after(s: &str, lo: usize) -> (r: Option<String>)
    requires
        lo <= s@.len(),
    ensures
        opt_text(r) == first_literal_of(s@.subrange(lo as int, s@.len() as int)),
{
    let n = s.unicode_len();
    let ghost t = s@.subrange(lo as int, n as int);
    let open = match find_char_index(s, lo, n, '"') {
        Some(i) => i,
        None => return None,
    };
    let start = open + 1;
    proof {
        assert(t.subrange((open - lo) + 1, t.len() as int) =~= s@.subrange(start as int, n as int));
    }
    let close = match find_char_index(s, start, n, '"') {
        Some(j) => j,
        None => return None,
    };
    let lit = s.substring_char(start, close);
    proof {
        assert(s@.subrange(start as int, n as int).subrange(0, close - start) =~= s@.subrange(
            start as int,
            close as int,
        ));
    }
    Some(String::from_str(lit))
}

/// The contents of the first string literal in `text`.
pub fn first_string_literal(text: &str) -> (r: Option<String>)
    ensures
        opt_text(r) == first_literal_of(text@),
{
    proof {
        assert(text@.subrange(0, text@.len() as int) =~= text@);
    }
    literal_after(text, 0)
}

/// The string literal following the first `component` in `text`: the value
/// of a `component = "..."` argument.
pub fn component_arg(text: &str) -> (r: Option<String>)
    ensures
        opt_text(r) == component_arg_of(text@),
{
    let _n = text.unicode_len();
    proof {
        assert(text@.subrange(0, text@.len() as int) =~= text@);
        reveal_strlit("component");
    }
    match find_str(text, 0, "component") {
        Some(i) => {
            proof {
                assert(text@.subrange((i + 9) as int, text@.len() as int) =~= text@.subrange(
                    i + "component"@.len(),
                    text@.len() as int,
                ));
            }
            literal_after(text, i + 9)
        },
        None => None,
    }
}

/// The component an annotated item declares: the `component = "..."`
/// argument in its text.
pub fn attr_component(text: &str) -> (r: Option<String>)
    ensures
        opt_text(r) == component_arg_of(text@),
{
    component_arg(text)
}

/// Whether an item's text mentions `needle` (an attribute marker such as
/// `watch_operation` or `Watchable`).
pub fn has_attr_text(text: &str, needle: &str) -> (r: bool)
    ensures
        r == (find_sub(text@, needle@) is Some),
{
    proof {
        assert(text@.subrange(0, text@.len() as int) =~= text@);
    }
    find_str(text, 0, needle).is_some()
}

/// The component a module path belongs to: its first `::` segment.
pub fn component_from_module(module: &str) -> (r: String)
    ensures
        r@ == first_segment_of(module@),
{
    proof {
        assert(module@.subrange(0, module@.len() as int) =~= module@);
    }
    match find_str(module, 0, "::") {
        Some(i) => String::from_str(module.substring_char(0, i)),
        None => String::from_str(module),
    }
}

/// The module path of a source item: the names of its enclosing modules,
/// given innermost first, outermost first joined with `::`.
pub fn source_module_path(enclosing: &Vec<String>) -> (r: String)
    ensures
        r@ == join(views(enclosing@).reverse(), "::"@),
{
    let mut segs: Vec<String> = Vec::new();
    let mut i: usize = enclosing.len();
    while i > 0
        invariant
            i <= enclosing.len(),
            views(segs@) == views(enclosing@).subrange(i as int, enclosing.len() as int).reverse(),
        decreases i,
    {
        i = i - 1;
        let ghost prev = segs@;
        segs.push(enclosing[i].clone());
        proof {
            assert(views(segs@) =~= views(prev).push(enclosing@[i as int]@));
            assert(views(enclosing@).subrange(i as int, enclosing.len() as int) =~= seq![
                enclosing@[i as int]@,
            ] + views(enclosing@).subrange(i + 1, enclosing.len() as int));
            assert(views(segs@) =~= views(enclosing@).subrange(i as int, enclosing.len() as int).reverse());
        }
    }
    proof {
        assert(views(enclosing@).subrange(0, enclosing.len() as int) =~= views(enclosing@));
        assert(segs@.map_values(|s: String| s@) =~= views(segs@));
    }
    join_strings(&segs, "::")
}

/// `s` with every `\\` turned into `/`.
pub open spec fn slashed(s: Seq<char>) -> Seq<char> {
    s.map_values(|c: char| if c == '\\' { '/' } else { c })
}

/// `s` ends with `e`.
pub open spec fn ends_with(s: Seq<char>, e: Seq<char>) -> bool {
    s.len() >= e.len() && s.subrange(s.len() - e.len(), s.len() as int) == e
}

/// `s` begins with `p`.
pub open spec fn begins_with(s: Seq<char>, p: Seq<char>) -> bool {
    s.len() >= p.len() && s.subrange(0, p.len() as int) == p
}

/// A source file of the analysed crate: under its root, and a `.rs` file.
pub open spec fn is_crate_source(path: Seq<char>, root: Seq<char>) -> bool {
    begins_with(slashed(path), slashed(root)) && ends_with(path, ".rs"@)
}

/// `s` with `\\` turned into `/`.
fn slash(s: &str) -> (r: String)
    ensures
        r@ == slashed(s@),
{
    let n = s.unicode_len();
    let mut out = String::new();
    let mut i: usize = 0;
    while i < n
        invariant
            n == s@.len(),
            i <= n,
            out@ == slashed(s@.subrange(0, i as int)),
        decreases n - i,
    {
        let c = s.get_char(i);
        push_char(&mut out, if c == '\\' { '/' } else { c });
        proof {
            assert(out@ =~= slashed(s@.subrange(0, i + 1)));
        }
        i = i + 1;
    }
    proof {
        assert(s@.subrange(0, n as int) =~= s@);
    }
    out
}

/// Whether `s[a..a + m]` equals `p`.
fn window_equals(s: &str, a: usize, p: &str) -> (r: bool)
    requires
        a + p@.len() <= s@.len(),
    ensures
        r == (s@.subrange(a as int, a + p@.len()) == p@),
{
    let m = p.unicode_len();
    let n = s.unicode_len();
    let mut i: usize = 0;
    while i < m
        invariant
            m == p@.len(),
            n == s@.len(),
            a + m <= s@.len(),
            i <= m,
            forall|q: int| 0 <= q < i ==> s@[a + q] == p@[q],
        decreases m - i,
    {
        if s.get_char(a + i) != p.get_char(i) {
            proof {
                assert(s@.subrange(a as int, a + m)[i as int] != p@[i as int]);
            }
            return false;
        }
        i = i + 1;
    }
    proof {
        assert(s@.subrange(a as int, a + m) =~= p@);
    }
    true
}

/// Whether `path` is a source file of the crate rooted at `root`.
fn crate_source(path: &str, root: &str) -> (r: bool)
    ensures
        r == is_crate_source(path@, root@),
{
    let p = slash(path);
    let q = slash(root);
    let begins = q.unicode_len() <= p.unicode_len() && window_equals(p.as_str(), 0, q.as_str());
    let n = path.unicode_len();
    proof {
        reveal_strlit(".rs");
    }
    let ends = n >= 3 && window_equals(path, n - 3, ".rs");
    begins && ends
}

/// The source files of the crate rooted at `root` among the loaded files:
/// the `.rs` files under the root, in load order, separators normalized for
/// the comparison.
pub fn fixture_source_files(files: &Vec<(u32, String)>, root: &str) -> (r: Vec<(u32, String)>)
    ensures
        r@.map_values(|f: (u32, String)| (f.0, f.1@)) == files@.map_values(
            |f: (u32, String)| (f.0, f.1@),
        ).filter(|f: (u32, Seq<char>)| is_crate_source(f.1, root@)),
{
    let ghost fv = files@.map_values(|f: (u32, String)| (f.0, f.1@));
    let ghost pred = |f: (u32, Seq<char>)| is_crate_source(f.1, root@);
    let mut out: Vec<(u32, String)> = Vec::new();
    let mut i: usize = 0;
    proof {
        assert(fv.subrange(0, 0).filter(pred) =~= Seq::<(u32, Seq<char>)>::empty()) by {
            reveal(Seq::filter);
        }
    }
    while i < files.len()
        invariant
            i <= files.len(),
            fv == files@.map_values(|f: (u32, String)| (f.0, f.1@)),
            pred == (|f: (u32, Seq<char>)| is_crate_source(f.1, root@)),
            out@.map_values(|f: (u32, String)| (f.0, f.1@)) == fv.subrange(0, i as int).filter(pred),
        decreases files.len() - i,
    {
        proof {
            assert(fv.subrange(0, i + 1) =~= fv.subrange(0, i as int).push(fv[i as int]));
            fv.subrange(0, i as int).lemma_filter_push(fv[i as int], pred);
        }
        let ghost prev = out@;
        if crate_source(files[i].1.as_str(), root) {
            out.push((files[i].0, files[i].1.clone()));
            proof {
                assert(out@.map_values(|f: (u32, String)| (f.0, f.1@)) =~= prev.map_values(
                    |f: (u32, String)| (f.0, f.1@),
                ).push(fv[i as int]));
            }
        }
        i = i + 1;
    }
    proof {
        assert(fv.subrange(0, files.len() as int) =~= fv);
    }
    out
}

} // verus!
