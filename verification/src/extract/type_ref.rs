//! Lower a stringified Rust type (as captured in the discovery metadata) into
//! a language-neutral [`TypeRef`].
//!
//! Recognized shapes: `Vec<T>`/`VecDeque<T>` become lists, `Option<T>`
//! optionals, `HashMap`/`BTreeMap<K, V>` maps, `HashSet`/`BTreeSet<T>` sets,
//! `Box`/`Rc`/`Arc<T>` their inner type, parenthesized lists tuples (a single
//! parenthesized type is just that type, `()` is unit), scalar identifiers
//! primitives, and everything else a named reference. A declared type (one in
//! `known`) is named by its final path segment; an undeclared path is kept
//! verbatim so that it dangles visibly under validation. Nothing here panics
//! on a malformed type string.

use vstd::prelude::*;
use crate::contract::type_ref::{shape_of, shapes_of, Primitive, TypeRef, TypeShape, lemma_shapes_of_push};
use crate::extract::scan::{
    find_char, find_char_index, first_at, last_segment, last_segment_bounds, lemma_split_top_level_len,
    depth_at, lemma_split_two, lemma_split_without_comma, no_top_level_comma, sep_at, segment_start,
    lemma_strip_refs_len, locates, split_generic, split_generic_ranges, split_top_level,
    split_top_level_ranges, strip_refs, strip_refs_index,
};
use crate::contract::validate::{nodes, nodes_seq};
use crate::ordering::str_views;
use crate::text::{is_blank, is_ws, lemma_trim_blank, lemma_trim_idempotent, lemma_trim_len, trim, trim_bounds, trim_end, trim_start};

verus! {

broadcast use vstd::seq_lib::group_seq_properties;

/// A reference to `name` in the current component.
pub open spec fn named_shape(name: Seq<char>) -> TypeShape {
    TypeShape::Named { name, component_id: None, registry_id: None }
}

/// The `unit` primitive.
pub open spec fn unit_shape() -> TypeShape {
    TypeShape::Primitive { name: Primitive::Unit }
}

/// The primitive a scalar identifier maps to. The primitive set is narrower
/// than Rust's, so widths collapse: `i8`/`i16`/`i32` to `I32`,
/// `i64`/`i128`/`isize` to `I64`, likewise for the unsigned family; `char`
/// maps to `String`.
pub open spec fn primitive_of(seg: Seq<char>) -> Option<Primitive> {
    if seg == "String"@ || seg == "str"@ || seg == "char"@ {
        Some(Primitive::String)
    } else if seg == "bool"@ {
        Some(Primitive::Bool)
    } else if seg == "i8"@ || seg == "i16"@ || seg == "i32"@ {
        Some(Primitive::I32)
    } else if seg == "i64"@ || seg == "i128"@ || seg == "isize"@ {
        Some(Primitive::I64)
    } else if seg == "u8"@ || seg == "u16"@ || seg == "u32"@ {
        Some(Primitive::U32)
    } else if seg == "u64"@ || seg == "u128"@ || seg == "usize"@ {
        Some(Primitive::U64)
    } else if seg == "f32"@ {
        Some(Primitive::F32)
    } else if seg == "f64"@ {
        Some(Primitive::F64)
    } else {
        None
    }
}

/// The non-empty parts of a tuple's inside.
pub open spec fn tuple_parts(inside: Seq<char>) -> Seq<Seq<char>> {
    split_top_level(inside, ',').filter(|p: Seq<char>| p.len() > 0)
}

/// The lowering of the type string `t`, with `known` the declared type names.
///
/// (Each recursive use is on a part strictly inside `t`; the length guards
/// only make that visible to the termination argument and always hold.)
pub open spec fn lowered(t: Seq<char>, known: Seq<Seq<char>>) -> TypeShape
    decreases t.len(),
{
    let s = strip_refs(trim(t));
    if s.len() >= 2 && s[0] == '(' && s[s.len() - 1] == ')' {
        let parts = tuple_parts(s.subrange(1, s.len() - 1));
        if parts.len() == 0 {
            unit_shape()
        } else if parts.len() == 1 {
            if parts[0].len() < t.len() {
                lowered(parts[0], known)
            } else {
                unit_shape()
            }
        } else {
            TypeShape::Tuple {
                items: Seq::new(
                    parts.len(),
                    |k: int|
                        if parts[k].len() < t.len() {
                            lowered(parts[k], known)
                        } else {
                            unit_shape()
                        },
                ),
            }
        }
    } else {
        match split_generic(s) {
            Some((raw_base, args)) => {
                let base = last_segment(raw_base);
                let a0 = if args.len() > 0 && args[0].len() < t.len() {
                    lowered(args[0], known)
                } else {
                    unit_shape()
                };
                let a1 = if args.len() > 1 && args[1].len() < t.len() {
                    lowered(args[1], known)
                } else {
                    unit_shape()
                };
                if (base == "Vec"@ || base == "VecDeque"@) && args.len() == 1 {
                    TypeShape::List { items: Box::new(a0) }
                } else if (base == "HashSet"@ || base == "BTreeSet"@) && args.len() == 1 {
                    TypeShape::SetOf { items: Box::new(a0) }
                } else if base == "Option"@ && args.len() == 1 {
                    TypeShape::Optional { value: Box::new(a0) }
                } else if (base == "HashMap"@ || base == "BTreeMap"@) && args.len() == 2 {
                    TypeShape::MapOf { keys: Box::new(a0), values: Box::new(a1) }
                } else if (base == "Box"@ || base == "Rc"@ || base == "Arc"@) && args.len() == 1 {
                    a0
                } else {
                    named_shape(base)
                }
            },
            None => {
                let seg = last_segment(s);
                match primitive_of(seg) {
                    Some(p) => TypeShape::Primitive { name: p },
                    None => if known.contains(seg) {
                        named_shape(seg)
                    } else {
                        named_shape(s)
                    },
                }
            },
        }
    }
}

/// Whether `s[a..b]` is the text `lit`.
pub fn window_is(s: &str, a: usize, b: usize, lit: &str) -> (r: bool)
    requires
        a <= b <= s@.len(),
    ensures
        r == (s@.subrange(a as int, b as int) == lit@),
{
    let n = lit.unicode_len();
    if b - a != n {
        return false;
    }
    let mut i: usize = 0;
    while i < n
        invariant
            a <= b <= s@.len(),
            n == lit@.len(),
            b - a == n,
            i <= n,
            forall|j: int| 0 <= j < i ==> s@[a + j] == lit@[j],
        decreases n - i,
    {
        if s.get_char(a + i) != lit.get_char(i) {
            proof {
                assert(s@.subrange(a as int, b as int)[i as int] != lit@[i as int]);
            }
            return false;
        }
        i = i + 1;
    }
    proof {
        assert(s@.subrange(a as int, b as int) =~= lit@);
    }
    true
}

/// A named reference to the text `s[a..b]`.
fn named_window(s: &str, a: usize, b: usize) -> (r: TypeRef)
    requires
        a <= b <= s@.len(),
    ensures
        r@ == named_shape(s@.subrange(a as int, b as int)),
{
    TypeRef::Named { name: String::from_str(s.substring_char(a, b)), component_id: None, registry_id: None }
}

/// The primitive the identifier `s[a..b]` maps to, if any.
fn primitive_window(s: &str, a: usize, b: usize) -> (r: Option<Primitive>)
    requires
        a <= b <= s@.len(),
    ensures
        r == primitive_of(s@.subrange(a as int, b as int)),
{
    if window_is(s, a, b, "String") || window_is(s, a, b, "str") || window_is(s, a, b, "char") {
        Some(Primitive::String)
    } else if window_is(s, a, b, "bool") {
        Some(Primitive::Bool)
    } else if window_is(s, a, b, "i8") || window_is(s, a, b, "i16") || window_is(s, a, b, "i32") {
        Some(Primitive::I32)
    } else if window_is(s, a, b, "i64") || window_is(s, a, b, "i128") || window_is(s, a, b, "isize") {
        Some(Primitive::I64)
    } else if window_is(s, a, b, "u8") || window_is(s, a, b, "u16") || window_is(s, a, b, "u32") {
        Some(Primitive::U32)
    } else if window_is(s, a, b, "u64") || window_is(s, a, b, "u128") || window_is(s, a, b, "usize") {
        Some(Primitive::U64)
    } else if window_is(s, a, b, "f32") {
        Some(Primitive::F32)
    } else if window_is(s, a, b, "f64") {
        Some(Primitive::F64)
    } else {
        None
    }
}

/// Whether the text `s[a..b]` is among `known`.
fn known_window(known: &Vec<&str>, s: &str, a: usize, b: usize) -> (r: bool)
    requires
        a <= b <= s@.len(),
    ensures
        r == str_views(known@).contains(s@.subrange(a as int, b as int)),
{
    let mut i: usize = 0;
    while i < known.len()
        invariant
            a <= b <= s@.len(),
            i <= known.len(),
            forall|j: int| 0 <= j < i ==> str_views(known@)[j] != s@.subrange(a as int, b as int),
        decreases known.len() - i,
    {
        if window_is(s, a, b, known[i]) {
            proof {
                assert(str_views(known@)[i as int] == s@.subrange(a as int, b as int));
            }
            return true;
        }
        i = i + 1;
    }
    false
}

proof fn lemma_filter_nonempty_locates(
    s: Seq<char>,
    lo: int,
    hi: int,
    raw: Seq<(usize, usize)>,
    parts: Seq<Seq<char>>,
    k: int,
)
    requires
        locates(s, lo, hi, raw, parts),
        0 <= lo,
        hi <= s.len(),
        0 <= k <= raw.len(),
    ensures
        locates(
            s,
            lo,
            hi,
            raw.subrange(0, k).filter(|r: (usize, usize)| r.0 < r.1),
            parts.subrange(0, k).filter(|p: Seq<char>| p.len() > 0),
        ),
    decreases k,
{
    let pr = |r: (usize, usize)| r.0 < r.1;
    let pp = |p: Seq<char>| p.len() > 0;
    if k > 0 {
        lemma_filter_nonempty_locates(s, lo, hi, raw, parts, k - 1);
        let r0 = raw.subrange(0, k - 1);
        let p0 = parts.subrange(0, k - 1);
        assert(raw.subrange(0, k) =~= r0.push(raw[k - 1]));
        assert(parts.subrange(0, k) =~= p0.push(parts[k - 1]));
        r0.lemma_filter_push(raw[k - 1], pr);
        p0.lemma_filter_push(parts[k - 1], pp);
        let x = raw[k - 1];
        assert(s.subrange(x.0 as int, x.1 as int) == parts[k - 1]);
        assert(pr(x) == pp(parts[k - 1]));
        let fr = r0.filter(pr);
        let fp = p0.filter(pp);
        if pr(x) {
            assert forall|j: int| 0 <= j < fr.push(x).len() implies lo <= (#[trigger] fr.push(x)[j]).0
                <= fr.push(x)[j].1 <= hi && s.subrange(
                fr.push(x)[j].0 as int,
                fr.push(x)[j].1 as int,
            ) == fp.push(parts[k - 1])[j] by {
                if j < fr.len() {
                    assert(fr.push(x)[j] == fr[j]);
                    assert(fp.push(parts[k - 1])[j] == fp[j]);
                }
            }
        }
    } else {
        reveal(Seq::filter);
        assert(raw.subrange(0, 0) =~= Seq::<(usize, usize)>::empty());
        assert(parts.subrange(0, 0) =~= Seq::<Seq<char>>::empty());
    }
}

/// The lowering of `s[lo..hi]`.
pub fn lower_window(s: &str, lo: usize, hi: usize, known: &Vec<&str>) -> (r: TypeRef)
    requires
        lo <= hi <= s@.len(),
    ensures
        r@ == lowered(s@.subrange(lo as int, hi as int), str_views(known@)),
    decreases hi - lo,
{
    let ghost t = s@.subrange(lo as int, hi as int);
    let ghost kn = str_views(known@);
    let (a0, b) = trim_bounds(s, lo, hi);
    let a = strip_refs_index(s, a0, b);
    let ghost st = s@.subrange(a as int, b as int);
    assert(st == strip_refs(trim(t)));
    if b - a >= 2 && s.get_char(a) == '(' && s.get_char(b - 1) == ')' {
        proof {
            assert(st[0] == '(');
            assert(st[st.len() - 1] == ')');
            assert(st.subrange(1, st.len() - 1) =~= s@.subrange(a + 1, b - 1));
        }
        let raw = split_top_level_ranges(s, a + 1, b - 1, ',');
        let ghost raw_parts = split_top_level(s@.subrange(a + 1, b - 1), ',');
        let mut parts: Vec<(usize, usize)> = Vec::new();
        let mut i: usize = 0;
        proof {
            reveal(Seq::filter);
            assert(parts@ =~= raw@.subrange(0, 0).filter(|r: (usize, usize)| r.0 < r.1));
        }
        while i < raw.len()
            invariant
                i <= raw.len(),
                locates(s@, a + 1, b - 1, raw@, raw_parts),
                parts@ == raw@.subrange(0, i as int).filter(|r: (usize, usize)| r.0 < r.1),
            decreases raw.len() - i,
        {
            proof {
                assert(raw@.subrange(0, i + 1) =~= raw@.subrange(0, i as int).push(raw@[i as int]));
                raw@.subrange(0, i as int).lemma_filter_push(raw@[i as int], |r: (usize, usize)| r.0 < r.1);
            }
            if raw[i].0 < raw[i].1 {
                parts.push(raw[i]);
            }
            i = i + 1;
        }
        proof {
            lemma_filter_nonempty_locates(s@, a + 1, b - 1, raw@, raw_parts, raw@.len() as int);
            assert(raw@.subrange(0, raw@.len() as int) =~= raw@);
            assert(raw_parts.subrange(0, raw_parts.len() as int) =~= raw_parts);
            assert(parts@.len() == tuple_parts(st.subrange(1, st.len() - 1)).len());
        }
        let ghost tp = tuple_parts(st.subrange(1, st.len() - 1));
        if parts.len() == 0 {
            return TypeRef::Primitive { name: Primitive::Unit };
        }
        if parts.len() == 1 {
            proof {
                assert(tp[0] == s@.subrange(parts@[0].0 as int, parts@[0].1 as int));
            }
            return lower_window(s, parts[0].0, parts[0].1, known);
        }
        let mut items: Vec<TypeRef> = Vec::new();
        let mut k: usize = 0;
        while k < parts.len()
            invariant
                lo <= hi <= s@.len(),
                a + 1 <= b - 1,
                lo <= a,
                b <= hi,
                k <= parts.len(),
                t == s@.subrange(lo as int, hi as int),
                kn == str_views(known@),
                locates(s@, a + 1, b - 1, parts@, tp),
                items@.len() == k,
                forall|j: int| 0 <= j < k ==> (#[trigger] items@[j])@ == lowered(tp[j], kn),
            decreases parts.len() - k,
        {
            let item = lower_window(s, parts[k].0, parts[k].1, known);
            items.push(item);
            k = k + 1;
        }
        proof {
            lemma_shapes_of_index(items@);
            let target = Seq::new(
                tp.len(),
                |j: int|
                    if tp[j].len() < t.len() {
                        lowered(tp[j], kn)
                    } else {
                        unit_shape()
                    },
            );
            assert forall|j: int| 0 <= j < tp.len() implies tp[j].len() < t.len() by {
                assert(tp[j] == s@.subrange(parts@[j].0 as int, parts@[j].1 as int));
            }
            assert forall|j: int| 0 <= j < tp.len() implies shapes_of(items@)[j] == target[j] by {
                assert(items@[j]@ == lowered(tp[j], kn));
            }
            assert(shapes_of(items@) =~= target);
            assert(tp.len() >= 2);
            assert(st.len() >= 2 && st[0] == '(' && st[st.len() - 1] == ')');
            let lt = lowered(t, kn);
            assert(lt is Tuple);
            assert(lt->Tuple_items.len() == tp.len());
            assert forall|j: int| 0 <= j < tp.len() implies lt->Tuple_items[j] == target[j] by {}
            assert(lt->Tuple_items =~= target);
            assert(lt =~= (TypeShape::Tuple { items: target }));
        }
        return TypeRef::Tuple { items };
    }
    proof {
        if st.len() >= 2 {
            assert(st[0] == s@[a as int]);
            assert(st[st.len() - 1] == s@[b - 1]);
        }
    }
    match split_generic_ranges(s, a, b) {
        Some((bb, args)) => {
            let (sa, sb) = last_segment_bounds(s, bb.0, bb.1);
            let ghost args_s = split_generic(st).unwrap().1;
            proof {
                assert forall|j: int| 0 <= j < args_s.len() implies args_s[j].len() < t.len() by {
                    assert(args_s[j] == s@.subrange(args@[j].0 as int, args@[j].1 as int));
                }
            }
            let n = args.len();
            if (window_is(s, sa, sb, "Vec") || window_is(s, sa, sb, "VecDeque")) && n == 1 {
                TypeRef::List { items: Box::new(lower_window(s, args[0].0, args[0].1, known)) }
            } else if (window_is(s, sa, sb, "HashSet") || window_is(s, sa, sb, "BTreeSet")) && n == 1 {
                TypeRef::SetOf { items: Box::new(lower_window(s, args[0].0, args[0].1, known)) }
            } else if window_is(s, sa, sb, "Option") && n == 1 {
                TypeRef::Optional { value: Box::new(lower_window(s, args[0].0, args[0].1, known)) }
            } else if (window_is(s, sa, sb, "HashMap") || window_is(s, sa, sb, "BTreeMap")) && n == 2 {
                TypeRef::MapOf {
                    keys: Box::new(lower_window(s, args[0].0, args[0].1, known)),
                    values: Box::new(lower_window(s, args[1].0, args[1].1, known)),
                }
            } else if (window_is(s, sa, sb, "Box") || window_is(s, sa, sb, "Rc") || window_is(s, sa, sb, "Arc"))
                && n == 1 {
                lower_window(s, args[0].0, args[0].1, known)
            } else {
                named_window(s, sa, sb)
            }
        },
        None => {
            let (sa, sb) = last_segment_bounds(s, a, b);
            match primitive_window(s, sa, sb) {
                Some(p) => TypeRef::Primitive { name: p },
                None => if known_window(known, s, sa, sb) {
                    named_window(s, sa, sb)
                } else {
                    named_window(s, a, b)
                },
            }
        },
    }
}

pub proof fn lemma_shapes_of_index(s: Seq<TypeRef>)
    ensures
        shapes_of(s).len() == s.len(),
        forall|j: int| 0 <= j < s.len() ==> shapes_of(s)[j] == (#[trigger] s[j])@,
    decreases s.len(),
{
    if s.len() > 0 {
        let rest = s.subrange(1, s.len() as int);
        lemma_shapes_of_index(rest);
        assert forall|j: int| 0 <= j < s.len() implies shapes_of(s)[j] == (#[trigger] s[j])@ by {
            if j > 0 {
                assert(rest[j - 1] == s[j]);
            }
        }
    }
}

/// Lower a stringified Rust type into a [`TypeRef`].
///
/// `known` is the set of declared type names (final path segments) in scope;
/// it applies to nested references too. Unrecognized paths become named
/// references, whose resolution against the declared types is checked later
/// by validation.
pub fn parse_type_ref(s: &str, known: &Vec<&str>) -> (r: TypeRef)
    ensures
        r@ == lowered(s@, str_views(known@)),
{
    let n = s.unicode_len();
    proof {
        assert(s@.subrange(0, n as int) =~= s@);
    }
    lower_window(s, 0, n, known)
}

/// The type string up to its first `<`, or all of it.
pub open spec fn before_generics(u: Seq<char>) -> Seq<char> {
    match find_char(u, '<') {
        Some(k) => u.subrange(0, k),
        None => u,
    }
}

/// The final path segment of a (possibly generic) type string, generics
/// stripped: what names an error outcome.
pub open spec fn head_of(t: Seq<char>) -> Seq<char> {
    last_segment(before_generics(trim(t)))
}

/// The final path segment of a (possibly generic) type string, generics
/// stripped. Used to name error outcomes from a `Result<_, E>` error type.
pub fn type_head(s: &str) -> (r: &str)
    ensures
        r@ == head_of(s@),
{
    let n = s.unicode_len();
    let (a, b) = trim_bounds(s, 0, n);
    proof {
        assert(s@.subrange(0, n as int) =~= s@);
    }
    let ghost u = s@.subrange(a as int, b as int);
    let cut = match find_char_index(s, a, b, '<') {
        Some(k) => {
            proof {
                assert(u.subrange(0, k - a) =~= s@.subrange(a as int, k as int));
            }
            k
        },
        None => b,
    };
    let (x, y) = last_segment_bounds(s, a, cut);
    s.substring_char(x, y)
}

/// The base path (final segment) and arguments of a generic type string.
pub open spec fn generic_parts_of(t: Seq<char>) -> Option<(Seq<char>, Seq<Seq<char>>)> {
    match split_generic(trim(t)) {
        Some((base, args)) => Some((last_segment(base), args)),
        None => None,
    }
}

/// Base path and argument list of a generic type string, with the base
/// reduced to its final segment. Used by the return-type classifier.
pub fn generic_parts(s: &str) -> (r: Option<(&str, Vec<&str>)>)
    ensures
        match generic_parts_of(s@) {
            None => r is None,
            Some((base, args)) => r matches Some((b, a)) && b@ == base && str_views(a@) == args,
        },
{
    let n = s.unicode_len();
    let (a, b) = trim_bounds(s, 0, n);
    proof {
        assert(s@.subrange(0, n as int) =~= s@);
    }
    match split_generic_ranges(s, a, b) {
        None => None,
        Some((bb, args)) => {
            let (x, y) = last_segment_bounds(s, bb.0, bb.1);
            let mut out: Vec<&str> = Vec::new();
            let ghost target = split_generic(s@.subrange(a as int, b as int)).unwrap().1;
            let mut i: usize = 0;
            while i < args.len()
                invariant
                    i <= args.len(),
                    b <= s@.len(),
                    locates(s@, a + 1, b - 1, args@, target),
                    str_views(out@) == target.subrange(0, i as int),
                decreases args.len() - i,
            {
                let piece = s.substring_char(args[i].0, args[i].1);
                let ghost prev = out@;
                out.push(piece);
                proof {
                    assert(str_views(out@) =~= str_views(prev).push(piece@));
                    assert(target.subrange(0, i + 1) =~= target.subrange(0, i as int).push(target[i as int]));
                }
                i = i + 1;
            }
            proof {
                assert(target.subrange(0, args.len() as int) =~= target);
            }
            Some((s.substring_char(x, y), out))
        },
    }
}

/// Whitespace around a type string does not change its lowering.
pub proof fn law_lowering_ignores_surrounding_whitespace(t: Seq<char>, known: Seq<Seq<char>>)
    ensures
        lowered(trim(t), known) == lowered(t, known),
{
    lemma_trim_idempotent(t);
    lemma_trim_len(t);
    let u = trim(t);
    let s = strip_refs(u);
    lemma_strip_refs_len(u);
    if s.len() >= 2 && s[0] == '(' && s[s.len() - 1] == ')' {
        let inside = s.subrange(1, s.len() - 1);
        let parts = tuple_parts(inside);
        lemma_split_top_level_len(inside, ',');
        assert forall|k: int| 0 <= k < parts.len() implies (#[trigger] parts[k]).len() < u.len() by {
            split_top_level(inside, ',').lemma_filter_contains_rev(
                |p: Seq<char>| p.len() > 0,
                parts[k],
            );
            let j = choose|j: int|
                0 <= j < split_top_level(inside, ',').len() && split_top_level(inside, ',')[j]
                    == parts[k];
            assert(split_top_level(inside, ',')[j].len() <= inside.len());
        }
        if parts.len() > 1 {
            let items_u = Seq::new(
                parts.len(),
                |k: int|
                    if parts[k].len() < u.len() {
                        lowered(parts[k], known)
                    } else {
                        unit_shape()
                    },
            );
            let items_t = Seq::new(
                parts.len(),
                |k: int|
                    if parts[k].len() < t.len() {
                        lowered(parts[k], known)
                    } else {
                        unit_shape()
                    },
            );
            assert(items_u =~= items_t);
            let lu = lowered(u, known);
            let lt = lowered(t, known);
            assert(lu is Tuple && lt is Tuple);
            assert(lu->Tuple_items =~= items_u);
            assert(lt->Tuple_items =~= items_t);
            assert(lu =~= lt);
        } else if parts.len() == 1 {
            assert(lowered(u, known) == lowered(t, known));
        } else {
            assert(lowered(u, known) == lowered(t, known));
        }
    } else {
        match split_generic(s) {
            Some((raw_base, args)) => {
                let open = find_char(s, '<')->0;
                let inner = s.subrange(open + 1, s.len() - 1);
                lemma_split_top_level_len(inner, ',');
                if args.len() > 0 {
                    assert(args[0].len() <= inner.len());
                }
                if args.len() > 1 {
                    assert(args[1].len() <= inner.len());
                }
                assert(lowered(u, known) == lowered(t, known));
            },
            None => {
                assert(lowered(u, known) == lowered(t, known));
            },
        }
    }
}


/// Two name lists with the same members.
pub open spec fn same_members(k1: Seq<Seq<char>>, k2: Seq<Seq<char>>) -> bool {
    forall|n: Seq<char>| k1.contains(n) <==> k2.contains(n)
}

/// The lowering of a type string reads the declared names only by
/// membership: their order and repetitions do not matter.
pub proof fn lemma_lowering_reads_membership(t: Seq<char>, k1: Seq<Seq<char>>, k2: Seq<Seq<char>>)
    requires
        same_members(k1, k2),
    ensures
        lowered(t, k1) == lowered(t, k2),
    decreases t.len(),
{
    let s = strip_refs(trim(t));
    if s.len() >= 2 && s[0] == '(' && s[s.len() - 1] == ')' {
        let parts = tuple_parts(s.subrange(1, s.len() - 1));
        assert forall|k: int| 0 <= k < parts.len() && (#[trigger] parts[k]).len() < t.len() implies lowered(
            parts[k],
            k1,
        ) == lowered(parts[k], k2) by {
            lemma_lowering_reads_membership(parts[k], k1, k2);
        }
        if parts.len() > 1 {
            let l1 = lowered(t, k1);
            let l2 = lowered(t, k2);
            assert(l1->Tuple_items =~= l2->Tuple_items);
            assert(l1 =~= l2);
        }
    } else {
        match split_generic(s) {
            Some((raw_base, args)) => {
                if args.len() > 0 && args[0].len() < t.len() {
                    lemma_lowering_reads_membership(args[0], k1, k2);
                }
                if args.len() > 1 && args[1].len() < t.len() {
                    lemma_lowering_reads_membership(args[1], k1, k2);
                }
            },
            None => {},
        }
    }
}


/// A string that starts and ends with a non-whitespace character is its own
/// trimming.
pub proof fn lemma_trim_unpadded(u: Seq<char>)
    requires
        u.len() > 0,
        !is_ws(u[0]),
        !is_ws(u.last()),
    ensures
        trim(u) == u,
{
    assert(trim_start(u) == u);
    assert(trim_end(u) == u);
}

/// A smart pointer `w` around a type without top-level commas lowers as the
/// type itself.
proof fn lemma_pointer_transparent(w: Seq<char>, t: Seq<char>, known: Seq<Seq<char>>)
    requires
        w == "Box"@ || w == "Rc"@ || w == "Arc"@,
        no_top_level_comma(t),
    ensures
        lowered(w + "<"@ + t + ">"@, known) == lowered(t, known),
{
    reveal_strlit("Box");
    reveal_strlit("Rc");
    reveal_strlit("Arc");
    reveal_strlit("<");
    reveal_strlit(">");
    reveal_strlit("Vec");
    reveal_strlit("VecDeque");
    reveal_strlit("HashSet");
    reveal_strlit("BTreeSet");
    reveal_strlit("Option");
    reveal_strlit("HashMap");
    reveal_strlit("BTreeMap");
    let u = w + "<"@ + t + ">"@;
    let n = w.len() as int;
    assert(u[0] == w[0]);
    assert(u.last() == '>');
    lemma_trim_unpadded(u);
    assert(strip_refs(u) == u);
    assert(first_at(u, '<', n));
    assert forall|k: int| first_at(u, '<', k) implies k == n by {
        if k < n {
            assert(u[k] == w[k]);
        } else if k > n {
            assert(u[n] == '<');
        }
    }
    assert(find_char(u, '<') == Some(n));
    assert(u.subrange(0, n) =~= w);
    lemma_trim_unpadded(w);
    assert(u.subrange(n + 1, u.len() - 1) =~= t);
    lemma_split_without_comma(t);
    assert forall|p: int| !sep_at(w, p) by {
        if 0 <= p < w.len() {
            assert(w[p] != ':');
        }
    }
    assert(segment_start(w) == 0);
    assert(w.subrange(0, w.len() as int) =~= w);
    assert(last_segment(w) == w);
    lemma_trim_len(t);
    law_lowering_ignores_surrounding_whitespace(t, known);
}

/// A smart pointer (`Box`, `Rc`, `Arc`) or a pair of parentheses around a
/// single type is transparent: it lowers as the type itself. A single type
/// is a non-blank type string with no comma outside brackets.
pub proof fn law_wrappers_are_transparent(t: Seq<char>, known: Seq<Seq<char>>)
    requires
        !is_blank(t),
        no_top_level_comma(t),
    ensures
        lowered("Box<"@ + t + ">"@, known) == lowered(t, known),
        lowered("Rc<"@ + t + ">"@, known) == lowered(t, known),
        lowered("Arc<"@ + t + ">"@, known) == lowered(t, known),
        lowered("("@ + t + ")"@, known) == lowered(t, known),
{
    reveal_strlit("Box");
    reveal_strlit("Rc");
    reveal_strlit("Arc");
    reveal_strlit("<");
    reveal_strlit("Box<");
    reveal_strlit("Rc<");
    reveal_strlit("Arc<");
    reveal_strlit("(");
    reveal_strlit(")");
    assert("Box<"@ =~= "Box"@ + "<"@);
    assert("Rc<"@ =~= "Rc"@ + "<"@);
    assert("Arc<"@ =~= "Arc"@ + "<"@);
    lemma_pointer_transparent("Box"@, t, known);
    lemma_pointer_transparent("Rc"@, t, known);
    lemma_pointer_transparent("Arc"@, t, known);

    broadcast use vstd::seq_lib::group_filter_ensures;

    let u = "("@ + t + ")"@;
    assert(u[0] == '(');
    assert(u.last() == ')');
    lemma_trim_unpadded(u);
    assert(strip_refs(u) == u);
    assert(u.subrange(1, u.len() - 1) =~= t);
    lemma_split_without_comma(t);
    lemma_trim_blank(t);
    lemma_trim_len(t);
    let p = |q: Seq<char>| q.len() > 0;
    Seq::<Seq<char>>::empty().lemma_filter_push(trim(t), p);
    assert(Seq::<Seq<char>>::empty().filter(p).len() == 0);
    assert(Seq::<Seq<char>>::empty().push(trim(t)) =~= seq![trim(t)]);
    assert(tuple_parts(t) =~= seq![trim(t)]);
    law_lowering_ignores_surrounding_whitespace(t, known);
}


/// No named reference among `ns` carries a component or registry id.
pub open spec fn refs_local(ns: Seq<TypeShape>) -> bool {
    forall|i: int|
        0 <= i < ns.len() && (#[trigger] ns[i]) is Named ==> ns[i]->component_id is None
            && ns[i]->registry_id is None
}

proof fn lemma_refs_local_concat(a: Seq<TypeShape>, b: Seq<TypeShape>)
    requires
        refs_local(a),
        refs_local(b),
    ensures
        refs_local(a + b),
{
    assert forall|i: int| 0 <= i < (a + b).len() && (#[trigger] (a + b)[i]) is Named implies (a
        + b)[i]->component_id is None && (a + b)[i]->registry_id is None by {
        if i >= a.len() {
            assert((a + b)[i] == b[i - a.len()]);
        }
    }
}

proof fn lemma_nodes_seq_local(items: Seq<TypeShape>)
    requires
        forall|k: int| 0 <= k < items.len() ==> refs_local(nodes(#[trigger] items[k])),
    ensures
        refs_local(nodes_seq(items)),
    decreases items.len(),
{
    if items.len() > 0 {
        let init = items.subrange(0, items.len() - 1);
        assert forall|k: int| 0 <= k < init.len() implies refs_local(nodes(#[trigger] init[k])) by {
            assert(init[k] == items[k]);
        }
        lemma_nodes_seq_local(init);
        assert(refs_local(nodes(items[items.len() - 1])));
        lemma_refs_local_concat(nodes_seq(init), nodes(items[items.len() - 1]));
    }
}

/// A lowering never qualifies a reference: every named node it builds, at
/// any depth, names a type of the current component, with no component or
/// registry id. This holds of every string, malformed ones included.
pub proof fn law_lowered_references_are_local(t: Seq<char>, known: Seq<Seq<char>>)
    ensures
        refs_local(nodes(lowered(t, known))),
    decreases t.len(),
{
    let s = strip_refs(trim(t));
    let r = lowered(t, known);
    assert(refs_local(seq![unit_shape()]));
    if s.len() >= 2 && s[0] == '(' && s[s.len() - 1] == ')' {
        let parts = tuple_parts(s.subrange(1, s.len() - 1));
        if parts.len() == 1 {
            if parts[0].len() < t.len() {
                law_lowered_references_are_local(parts[0], known);
            }
        } else if parts.len() > 1 {
            let items = r->Tuple_items;
            assert forall|k: int| 0 <= k < items.len() implies refs_local(nodes(#[trigger] items[k])) by {
                if parts[k].len() < t.len() {
                    law_lowered_references_are_local(parts[k], known);
                }
            }
            lemma_nodes_seq_local(items);
            assert(refs_local(seq![r]));
            lemma_refs_local_concat(seq![r], nodes_seq(items));
        }
    } else {
        match split_generic(s) {
            Some((raw_base, args)) => {
                let a0 = if args.len() > 0 && args[0].len() < t.len() {
                    lowered(args[0], known)
                } else {
                    unit_shape()
                };
                let a1 = if args.len() > 1 && args[1].len() < t.len() {
                    lowered(args[1], known)
                } else {
                    unit_shape()
                };
                if args.len() > 0 && args[0].len() < t.len() {
                    law_lowered_references_are_local(args[0], known);
                }
                if args.len() > 1 && args[1].len() < t.len() {
                    law_lowered_references_are_local(args[1], known);
                }
                assert(refs_local(seq![r]));
                lemma_refs_local_concat(seq![r], nodes(a0));
                lemma_refs_local_concat(seq![r] + nodes(a0), nodes(a1));
            },
            None => {},
        }
    }
}


/// A plain identifier: one or more ASCII letters.
pub open spec fn is_plain_ident(w: Seq<char>) -> bool {
    w.len() > 0 && forall|i: int|
        0 <= i < w.len() ==> ('a' <= #[trigger] w[i] && w[i] <= 'z') || ('A' <= w[i] && w[i] <= 'Z')
}

/// The type text `w<inner>`.
pub open spec fn generic_text(w: Seq<char>, inner: Seq<char>) -> Seq<char> {
    w + "<"@ + inner + ">"@
}

/// A generic type text with a plain base is read as that base applied to
/// the top-level parts of its argument text.
pub proof fn lemma_plain_generic(w: Seq<char>, inner: Seq<char>)
    requires
        is_plain_ident(w),
    ensures
        trim(generic_text(w, inner)) == generic_text(w, inner),
        strip_refs(generic_text(w, inner)) == generic_text(w, inner),
        generic_text(w, inner)[0] != '(',
        split_generic(generic_text(w, inner)) == Some((w, split_top_level(inner, ','))),
        last_segment(w) == w,
{
    reveal_strlit("<");
    reveal_strlit(">");
    let u = generic_text(w, inner);
    let n = w.len() as int;
    assert(u[0] == w[0]);
    assert(u.last() == '>');
    lemma_trim_unpadded(u);
    assert(strip_refs(u) == u);
    assert(first_at(u, '<', n));
    assert forall|k: int| first_at(u, '<', k) implies k == n by {
        if k < n {
            assert(u[k] == w[k]);
        } else if k > n {
            assert(u[n] == '<');
        }
    }
    assert(find_char(u, '<') == Some(n));
    assert(u.subrange(0, n) =~= w);
    assert(w[0] == w[0]);
    assert(w.last() == w[w.len() - 1]);
    lemma_trim_unpadded(w);
    assert(u.subrange(n + 1, u.len() - 1) =~= inner);
    assert forall|p: int| !sep_at(w, p) by {
        if 0 <= p < w.len() {
            assert(w[p] != ':');
        }
    }
    assert(segment_start(w) == 0);
    assert(w.subrange(0, w.len() as int) =~= w);
}

/// A plain-based generic with one argument `t` (no comma outside brackets):
/// its only argument lowers as `t`, and the base names the lowering.
proof fn lemma_one_argument(w: Seq<char>, t: Seq<char>, known: Seq<Seq<char>>)
    requires
        is_plain_ident(w),
        no_top_level_comma(t),
    ensures
        trim(generic_text(w, t)) == generic_text(w, t),
        strip_refs(generic_text(w, t)) == generic_text(w, t),
        generic_text(w, t)[0] != '(',
        last_segment(w) == w,
        split_generic(generic_text(w, t)) == Some((w, seq![trim(t)])),
        trim(t).len() < generic_text(w, t).len(),
        lowered(trim(t), known) == lowered(t, known),
{
    lemma_plain_generic(w, t);
    lemma_split_without_comma(t);
    lemma_trim_len(t);
    law_lowering_ignores_surrounding_whitespace(t, known);
}


#[verifier::rlimit(30)]
proof fn lemma_vec_lowering(t: Seq<char>, known: Seq<Seq<char>>)
    requires
        no_top_level_comma(t),
    ensures
        lowered("Vec<"@ + t + ">"@, known) == (TypeShape::List { items: Box::new(lowered(t, known)) }),
{
    reveal_strlit("Vec");
    reveal_strlit("VecDeque");
    reveal_strlit("HashSet");
    reveal_strlit("BTreeSet");
    reveal_strlit("Option");
    reveal_strlit("HashMap");
    reveal_strlit("BTreeMap");
    reveal_strlit("Box");
    reveal_strlit("Rc");
    reveal_strlit("Arc");
    reveal_strlit("<");
    reveal_strlit(">");
    reveal_strlit("Vec<");
    assert("Vec<"@ =~= "Vec"@ + "<"@);
    lemma_one_argument("Vec"@, t, known);
}

#[verifier::rlimit(30)]
proof fn lemma_vec_deque_lowering(t: Seq<char>, known: Seq<Seq<char>>)
    requires
        no_top_level_comma(t),
    ensures
        lowered("VecDeque<"@ + t + ">"@, known) == (TypeShape::List { items: Box::new(lowered(t, known)) }),
{
    reveal_strlit("Vec");
    reveal_strlit("VecDeque");
    reveal_strlit("HashSet");
    reveal_strlit("BTreeSet");
    reveal_strlit("Option");
    reveal_strlit("HashMap");
    reveal_strlit("BTreeMap");
    reveal_strlit("Box");
    reveal_strlit("Rc");
    reveal_strlit("Arc");
    reveal_strlit("<");
    reveal_strlit(">");
    reveal_strlit("VecDeque<");
    assert("VecDeque<"@ =~= "VecDeque"@ + "<"@);
    lemma_one_argument("VecDeque"@, t, known);
}

#[verifier::rlimit(30)]
proof fn lemma_hash_set_lowering(t: Seq<char>, known: Seq<Seq<char>>)
    requires
        no_top_level_comma(t),
    ensures
        lowered("HashSet<"@ + t + ">"@, known) == (TypeShape::SetOf { items: Box::new(lowered(t, known)) }),
{
    reveal_strlit("Vec");
    reveal_strlit("VecDeque");
    reveal_strlit("HashSet");
    reveal_strlit("BTreeSet");
    reveal_strlit("Option");
    reveal_strlit("HashMap");
    reveal_strlit("BTreeMap");
    reveal_strlit("Box");
    reveal_strlit("Rc");
    reveal_strlit("Arc");
    reveal_strlit("<");
    reveal_strlit(">");
    reveal_strlit("HashSet<");
    assert("HashSet<"@ =~= "HashSet"@ + "<"@);
    lemma_one_argument("HashSet"@, t, known);
}

#[verifier::rlimit(30)]
proof fn lemma_btree_set_lowering(t: Seq<char>, known: Seq<Seq<char>>)
    requires
        no_top_level_comma(t),
    ensures
        lowered("BTreeSet<"@ + t + ">"@, known) == (TypeShape::SetOf { items: Box::new(lowered(t, known)) }),
{
    reveal_strlit("Vec");
    reveal_strlit("VecDeque");
    reveal_strlit("HashSet");
    reveal_strlit("BTreeSet");
    reveal_strlit("Option");
    reveal_strlit("HashMap");
    reveal_strlit("BTreeMap");
    reveal_strlit("Box");
    reveal_strlit("Rc");
    reveal_strlit("Arc");
    reveal_strlit("<");
    reveal_strlit(">");
    reveal_strlit("BTreeSet<");
    assert("BTreeSet<"@ =~= "BTreeSet"@ + "<"@);
    lemma_one_argument("BTreeSet"@, t, known);
}

#[verifier::rlimit(30)]
proof fn lemma_option_lowering(t: Seq<char>, known: Seq<Seq<char>>)
    requires
        no_top_level_comma(t),
    ensures
        lowered("Option<"@ + t + ">"@, known) == (TypeShape::Optional { value: Box::new(lowered(t, known)) }),
{
    reveal_strlit("Vec");
    reveal_strlit("VecDeque");
    reveal_strlit("HashSet");
    reveal_strlit("BTreeSet");
    reveal_strlit("Option");
    reveal_strlit("HashMap");
    reveal_strlit("BTreeMap");
    reveal_strlit("Box");
    reveal_strlit("Rc");
    reveal_strlit("Arc");
    reveal_strlit("<");
    reveal_strlit(">");
    reveal_strlit("Option<");
    assert("Option<"@ =~= "Option"@ + "<"@);
    lemma_one_argument("Option"@, t, known);
}

/// The lowering table of the single-argument containers, for any argument
/// type `t` (no comma outside brackets): `Vec` and `VecDeque` are lists,
/// `HashSet` and `BTreeSet` are sets and `Option` is an optional, each of
/// the lowering of `t`.
pub proof fn law_single_argument_containers(t: Seq<char>, known: Seq<Seq<char>>)
    requires
        no_top_level_comma(t),
    ensures
        lowered("Vec<"@ + t + ">"@, known) == (TypeShape::List { items: Box::new(lowered(t, known)) }),
        lowered("VecDeque<"@ + t + ">"@, known) == (TypeShape::List { items: Box::new(lowered(t, known)) }),
        lowered("HashSet<"@ + t + ">"@, known) == (TypeShape::SetOf { items: Box::new(lowered(t, known)) }),
        lowered("BTreeSet<"@ + t + ">"@, known) == (TypeShape::SetOf { items: Box::new(lowered(t, known)) }),
        lowered("Option<"@ + t + ">"@, known) == (TypeShape::Optional { value: Box::new(lowered(t, known)) }),
{
    lemma_vec_lowering(t, known);
    lemma_vec_deque_lowering(t, known);
    lemma_hash_set_lowering(t, known);
    lemma_btree_set_lowering(t, known);
    lemma_option_lowering(t, known);
}

/// The lowering table of the maps: `HashMap<k, v>` and `BTreeMap<k, v>`,
/// where the comma between `k` and `v` is the only one outside brackets, are
/// maps from the lowering of `k` to the lowering of `v`.
pub proof fn law_maps(k: Seq<char>, v: Seq<char>, known: Seq<Seq<char>>)
    requires
        no_top_level_comma(k),
        depth_at(k, k.len()) == 0,
        no_top_level_comma(v),
    ensures
        lowered("HashMap<"@ + k + ","@ + v + ">"@, known) == (TypeShape::MapOf {
            keys: Box::new(lowered(k, known)),
            values: Box::new(lowered(v, known)),
        }),
        lowered("BTreeMap<"@ + k + ","@ + v + ">"@, known) == (TypeShape::MapOf {
            keys: Box::new(lowered(k, known)),
            values: Box::new(lowered(v, known)),
        }),
{
    reveal_strlit("Vec");
    reveal_strlit("VecDeque");
    reveal_strlit("HashSet");
    reveal_strlit("BTreeSet");
    reveal_strlit("Option");
    reveal_strlit("HashMap");
    reveal_strlit("BTreeMap");
    reveal_strlit("Box");
    reveal_strlit("Rc");
    reveal_strlit("Arc");
    reveal_strlit("<");
    reveal_strlit(">");
    reveal_strlit(",");
    reveal_strlit("HashMap<");
    reveal_strlit("BTreeMap<");
    let inner = k + seq![','] + v;
    assert(","@ =~= seq![',']);
    assert("HashMap<"@ + k + ","@ + v + ">"@ =~= generic_text("HashMap"@, inner));
    assert("BTreeMap<"@ + k + ","@ + v + ">"@ =~= generic_text("BTreeMap"@, inner));
    lemma_split_two(k, v);
    lemma_plain_generic("HashMap"@, inner);
    lemma_plain_generic("BTreeMap"@, inner);
    lemma_trim_len(k);
    lemma_trim_len(v);
    law_lowering_ignores_surrounding_whitespace(k, known);
    law_lowering_ignores_surrounding_whitespace(v, known);
}


/// A pair in parentheses, `(a, b)`, where the comma between `a` and `b` is
/// the only one outside brackets and neither is blank, lowers to the tuple
/// of the lowerings of `a` and `b`, in that order.
pub proof fn law_pairs_are_tuples(a: Seq<char>, b: Seq<char>, known: Seq<Seq<char>>)
    requires
        !is_blank(a),
        !is_blank(b),
        no_top_level_comma(a),
        depth_at(a, a.len()) == 0,
        no_top_level_comma(b),
    ensures
        lowered("("@ + a + ","@ + b + ")"@, known) == (TypeShape::Tuple {
            items: seq![lowered(a, known), lowered(b, known)],
        }),
{
    broadcast use vstd::seq_lib::group_filter_ensures;

    reveal_strlit("(");
    reveal_strlit(")");
    reveal_strlit(",");
    let inner = a + seq![','] + b;
    let u = "("@ + a + ","@ + b + ")"@;
    assert(u =~= "("@ + inner + ")"@);
    assert(u[0] == '(');
    assert(u.last() == ')');
    lemma_trim_unpadded(u);
    assert(strip_refs(u) == u);
    assert(u.subrange(1, u.len() - 1) =~= inner);
    lemma_split_two(a, b);
    lemma_trim_blank(a);
    lemma_trim_blank(b);
    lemma_trim_len(a);
    lemma_trim_len(b);
    let p = |q: Seq<char>| q.len() > 0;
    let e = Seq::<Seq<char>>::empty();
    e.lemma_filter_push(trim(a), p);
    e.push(trim(a)).lemma_filter_push(trim(b), p);
    assert(e.filter(p).len() == 0);
    assert(e.push(trim(a)).push(trim(b)) =~= seq![trim(a), trim(b)]);
    assert(e.filter(p).push(trim(a)) =~= seq![trim(a)]);
    assert(e.push(trim(a)) =~= seq![trim(a)]);
    let parts = tuple_parts(inner);
    assert(parts =~= seq![trim(a), trim(b)]);
    law_lowering_ignores_surrounding_whitespace(a, known);
    law_lowering_ignores_surrounding_whitespace(b, known);
    let r = lowered(u, known);
    assert(r->Tuple_items =~= seq![lowered(a, known), lowered(b, known)]);
}

} // verus!
