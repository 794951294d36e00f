//! Sorted listings of names and the stable order of items by a name key.

use vstd::prelude::*;
use crate::text::{
    lemma_seq_lt_asymmetric, lemma_seq_lt_irreflexive, lemma_seq_lt_total, lemma_seq_lt_transitive,
    seq_lt, str_eq, str_lt,
};

verus! {

/// Every element orders strictly before every later one.
pub open spec fn strictly_sorted(s: Seq<Seq<char>>) -> bool {
    forall|i: int, j: int| 0 <= i < j < s.len() ==> seq_lt(#[trigger] s[i], #[trigger] s[j])
}

/// `r` lists the members of `set`, each once, in ascending order.
pub open spec fn is_listing(set: Set<Seq<char>>, r: Seq<Seq<char>>) -> bool {
    &&& strictly_sorted(r)
    &&& forall|x: Seq<char>| #[trigger] r.contains(x) <==> set.contains(x)
}

/// The ascending listing of a finite set of names.
pub open spec fn listing(set: Set<Seq<char>>) -> Seq<Seq<char>> {
    choose|r: Seq<Seq<char>>| is_listing(set, r)
}

/// Two ascending listings of one set are the same sequence.
pub proof fn lemma_listing_unique(set: Set<Seq<char>>, r1: Seq<Seq<char>>, r2: Seq<Seq<char>>)
    requires
        is_listing(set, r1),
        is_listing(set, r2),
    ensures
        r1 == r2,
    decreases r1.len(),
{
    if r1.len() == 0 {
        if r2.len() > 0 {
            assert(r2.contains(r2[0]));
            assert(set.contains(r2[0]));
            assert(r1.contains(r2[0]));
        }
        assert(r1 =~= r2);
    } else {
        assert(r1.contains(r1[0]));
        assert(set.contains(r1[0]));
        assert(r2.contains(r1[0]));
        assert(r2.len() > 0);
        assert(r2.contains(r2[0]));
        let a = r1[0];
        let b = r2[0];
        if a != b {
            assert(set.contains(a));
            assert(r2.contains(a));
            assert(set.contains(b));
            assert(r1.contains(b));
            let ka = choose|k: int| 0 <= k < r2.len() && r2[k] == a;
            let kb = choose|k: int| 0 <= k < r1.len() && r1[k] == b;
            assert(ka > 0);
            assert(kb > 0);
            assert(seq_lt(r2[0], r2[ka]));
            assert(seq_lt(r1[0], r1[kb]));
            lemma_seq_lt_asymmetric(a, b);
        }
        let set2 = set.remove(a);
        let t1 = r1.drop_first();
        let t2 = r2.drop_first();
        assert forall|x: Seq<char>| #[trigger] t1.contains(x) <==> set2.contains(x) by {
            if t1.contains(x) {
                let k = choose|k: int| 0 <= k < t1.len() && t1[k] == x;
                assert(r1[k + 1] == x);
                assert(seq_lt(r1[0], r1[k + 1]));
                lemma_seq_lt_irreflexive(a);
                assert(r1.contains(x));
            }
            if set2.contains(x) {
                assert(r1.contains(x));
                let k = choose|k: int| 0 <= k < r1.len() && r1[k] == x;
                assert(k != 0);
                assert(t1[k - 1] == x);
            }
        }
        assert forall|x: Seq<char>| #[trigger] t2.contains(x) <==> set2.contains(x) by {
            if t2.contains(x) {
                let k = choose|k: int| 0 <= k < t2.len() && t2[k] == x;
                assert(r2[k + 1] == x);
                assert(seq_lt(r2[0], r2[k + 1]));
                lemma_seq_lt_irreflexive(a);
                assert(r2.contains(x));
            }
            if set2.contains(x) {
                assert(r2.contains(x));
                let k = choose|k: int| 0 <= k < r2.len() && r2[k] == x;
                assert(k != 0);
                assert(t2[k - 1] == x);
            }
        }
        assert forall|i: int, j: int| 0 <= i < j < t1.len() implies seq_lt(
            #[trigger] t1[i],
            #[trigger] t1[j],
        ) by {
            assert(t1[i] == r1[i + 1]);
            assert(t1[j] == r1[j + 1]);
        }
        assert forall|i: int, j: int| 0 <= i < j < t2.len() implies seq_lt(
            #[trigger] t2[i],
            #[trigger] t2[j],
        ) by {
            assert(t2[i] == r2[i + 1]);
            assert(t2[j] == r2[j + 1]);
        }
        lemma_listing_unique(set2, t1, t2);
        assert(r1 =~= seq![a] + t1);
        assert(r2 =~= seq![a] + t2);
    }
}

/// Once some sequence lists `set`, `listing(set)` is that sequence.
pub proof fn lemma_listing_is(set: Set<Seq<char>>, r: Seq<Seq<char>>)
    requires
        is_listing(set, r),
    ensures
        listing(set) == r,
{
    lemma_listing_unique(set, listing(set), r);
}

/// The views of a sequence of strings.
pub open spec fn views(v: Seq<String>) -> Seq<Seq<char>> {
    v.map_values(|s: String| s@)
}

/// Add `x` to the ascending listing `v`, unless it is already there.
pub fn insert_listed(v: &mut Vec<String>, x: &str)
    requires
        strictly_sorted(views(old(v)@)),
    ensures
        strictly_sorted(views(final(v)@)),
        forall|y: Seq<char>|
            #[trigger] views(final(v)@).contains(y) <==> (views(old(v)@).contains(y) || y == x@),
{
    let ghost old_views = views(v@);
    let mut j: usize = v.len();
    while j > 0 && str_lt(x, v[j - 1].as_str())
        invariant
            j <= v.len(),
            v@ == old(v)@,
            old_views == views(v@),
            forall|k: int| j <= k < v.len() ==> seq_lt(x@, #[trigger] old_views[k]),
        decreases j,
    {
        j = j - 1;
    }
    if j > 0 && str_eq(x, v[j - 1].as_str()) {
        proof {
            assert(old_views[j - 1] == x@);
            assert(old_views.contains(x@));
        }
        return;
    }
    proof {
        if j > 0 {
            lemma_seq_lt_total(x@, old_views[j - 1]);
            assert(seq_lt(old_views[j - 1], x@));
        }
    }
    v.insert(j, x.to_owned());
    proof {
        let nv = views(v@);
        assert(nv =~= old_views.insert(j as int, x@));
        assert forall|a: int, b: int| 0 <= a < b < nv.len() implies seq_lt(
            #[trigger] nv[a],
            #[trigger] nv[b],
        ) by {
            if b < j {
            } else if b == j {
                if a < j - 1 {
                    lemma_seq_lt_transitive(old_views[a], old_views[j - 1], x@);
                }
            } else if a > j {
            } else if a == j {
            } else {
                assert(nv[a] == old_views[a]);
                assert(nv[b] == old_views[b - 1]);
            }
        }
        assert forall|y: Seq<char>| #[trigger] nv.contains(y) <==> (old_views.contains(y) || y
            == x@) by {
            if nv.contains(y) {
                let k = choose|k: int| 0 <= k < nv.len() && nv[k] == y;
                if k < j {
                    assert(old_views[k] == y);
                } else if k > j {
                    assert(old_views[k - 1] == y);
                }
            }
            if old_views.contains(y) {
                let k = choose|k: int| 0 <= k < old_views.len() && old_views[k] == y;
                if k < j {
                    assert(nv[k] == y);
                } else {
                    assert(nv[k + 1] == y);
                }
            }
            if y == x@ {
                assert(nv[j as int] == y);
            }
        }
    }
}

} // verus!

verus! {

/// The concatenation of `f` over `s`, in order.
pub open spec fn concat_map<T, U>(s: Seq<T>, f: spec_fn(T) -> Seq<U>) -> Seq<U>
    decreases s.len(),
{
    if s.len() == 0 {
        Seq::empty()
    } else {
        concat_map(s.subrange(0, s.len() - 1), f) + f(s[s.len() - 1])
    }
}

pub proof fn lemma_concat_map_push<T, U>(s: Seq<T>, x: T, f: spec_fn(T) -> Seq<U>)
    ensures
        concat_map(s.push(x), f) == concat_map(s, f) + f(x),
{
    assert(s.push(x).subrange(0, s.len() as int) =~= s);
}

pub proof fn lemma_concat_map_prefix<T, U>(s: Seq<T>, i: int, f: spec_fn(T) -> Seq<U>)
    requires
        0 <= i < s.len(),
    ensures
        concat_map(s.subrange(0, i + 1), f) == concat_map(s.subrange(0, i), f) + f(s[i]),
{
    assert(s.subrange(0, i + 1) =~= s.subrange(0, i).push(s[i]));
    lemma_concat_map_push(s.subrange(0, i), s[i], f);
}

/// What the mapping gives for one element is in the concatenation.
pub proof fn lemma_concat_map_contains<T, U>(s: Seq<T>, i: int, f: spec_fn(T) -> Seq<U>, v: U)
    requires
        0 <= i < s.len(),
        f(s[i]).contains(v),
    ensures
        concat_map(s, f).contains(v),
    decreases s.len(),
{
    let init = s.subrange(0, s.len() - 1);
    let last = f(s[s.len() - 1]);
    if i == s.len() - 1 {
        let j = choose|j: int| 0 <= j < last.len() && last[j] == v;
        assert((concat_map(init, f) + last)[concat_map(init, f).len() + j] == v);
    } else {
        assert(init[i] == s[i]);
        lemma_concat_map_contains(init, i, f, v);
        let j = choose|j: int| 0 <= j < concat_map(init, f).len() && concat_map(init, f)[j] == v;
        assert((concat_map(init, f) + last)[j] == v);
    }
}

/// Whether `names` holds `name`.
pub fn contains_string(names: &Vec<String>, name: &str) -> (r: bool)
    ensures
        r == views(names@).contains(name@),
{
    let mut i: usize = 0;
    while i < names.len()
        invariant
            i <= names.len(),
            forall|k: int| 0 <= k < i ==> names@[k]@ != name@,
        decreases names.len() - i,
    {
        if str_eq(names[i].as_str(), name) {
            proof {
                assert(views(names@)[i as int] == name@);
            }
            return true;
        }
        i = i + 1;
    }
    proof {
        if views(names@).contains(name@) {
            let k = choose|k: int| 0 <= k < names@.len() && views(names@)[k] == name@;
            assert(names@[k]@ == name@);
        }
    }
    false
}

/// The views of a sequence of string slices.
pub open spec fn str_views(v: Seq<&str>) -> Seq<Seq<char>> {
    v.map_values(|s: &str| s@)
}

/// The names that occur more than once in `names`.
pub open spec fn repeated(names: Seq<Seq<char>>) -> Set<Seq<char>> {
    Set::new(|x: Seq<char>| exists|i: int, j: int| 0 <= i < j < names.len() && names[i] == x && names[j] == x)
}

/// The names that occur more than once, each listed once, in ascending order.
pub open spec fn duplicate_names(names: Seq<Seq<char>>) -> Seq<Seq<char>> {
    listing(repeated(names))
}

/// The values that appear more than once in `names`, each reported once, in
/// ascending order for deterministic output.
pub fn duplicates(names: &Vec<&str>) -> (r: Vec<String>)
    ensures
        views(r@) == duplicate_names(str_views(names@)),
{
    let ghost sv = str_views(names@);
    let mut out: Vec<String> = Vec::new();
    let mut j: usize = 0;
    proof {
        assert(views(out@) =~= Seq::<Seq<char>>::empty());
    }
    while j < names.len()
        invariant
            j <= names.len(),
            sv == str_views(names@),
            strictly_sorted(views(out@)),
            forall|x: Seq<char>|
                #[trigger] views(out@).contains(x) <==> (exists|a: int, b: int|
                    0 <= a < b < j && sv[a] == x && sv[b] == x),
        decreases names.len() - j,
    {
        let mut i: usize = 0;
        let mut found = false;
        while i < j && !found
            invariant
                i <= j < names.len(),
                sv == str_views(names@),
                found ==> exists|a: int| 0 <= a < j && sv[a] == sv[j as int],
                !found ==> forall|a: int| 0 <= a < i ==> sv[a] != sv[j as int],
            decreases j - i + (if found { 0int } else { 1int }),
        {
            if str_eq(names[i], names[j]) {
                assert(sv[i as int] == sv[j as int]);
                found = true;
            } else {
                i = i + 1;
            }
        }
        let ghost before = views(out@);
        if found {
            insert_listed(&mut out, names[j]);
        }
        proof {
            assert forall|x: Seq<char>|
                #[trigger] views(out@).contains(x) <==> (exists|a: int, b: int|
                    0 <= a < b < j + 1 && sv[a] == x && sv[b] == x) by {
                if views(out@).contains(x) {
                    if before.contains(x) {
                        let (a, b) = choose|a: int, b: int| 0 <= a < b < j && sv[a] == x && sv[b] == x;
                        assert(0 <= a < b < j + 1 && sv[a] == x && sv[b] == x);
                    } else {
                        assert(found && x == sv[j as int]);
                        let a = choose|a: int| 0 <= a < j && sv[a] == sv[j as int];
                        assert(0 <= a < j as int + 1 && sv[a] == x && sv[j as int] == x);
                    }
                }
                if exists|a: int, b: int| 0 <= a < b < j + 1 && sv[a] == x && sv[b] == x {
                    let (a, b) = choose|a: int, b: int| 0 <= a < b < j + 1 && sv[a] == x && sv[b] == x;
                    if b < j {
                        assert(before.contains(x));
                    } else {
                        assert(found);
                        assert(x == sv[j as int]);
                    }
                }
            }
        }
        j = j + 1;
    }
    proof {
        assert forall|x: Seq<char>| #[trigger] views(out@).contains(x) <==> repeated(sv).contains(x) by {}
        lemma_listing_is(repeated(sv), views(out@));
    }
    out
}

} // verus!

verus! {

/// `x` placed into `r` after every element whose key does not order after
/// `x`'s: the step of a stable insertion sort.
pub open spec fn insert_by_key<T>(r: Seq<T>, x: T, key: spec_fn(T) -> Seq<char>) -> Seq<T>
    decreases r.len(),
{
    if r.len() == 0 {
        seq![x]
    } else if seq_lt(key(x), key(r[r.len() - 1])) {
        insert_by_key(r.subrange(0, r.len() - 1), x, key).push(r[r.len() - 1])
    } else {
        r.push(x)
    }
}

/// `s` stably sorted by `key`: elements ordered by key, elements with equal
/// keys kept in their original order.
pub open spec fn sort_by_key<T>(s: Seq<T>, key: spec_fn(T) -> Seq<char>) -> Seq<T>
    decreases s.len(),
{
    if s.len() == 0 {
        s
    } else {
        insert_by_key(sort_by_key(s.subrange(0, s.len() - 1), key), s[s.len() - 1], key)
    }
}

/// Elements ordered by key (ties allowed).
pub open spec fn sorted_by_key<T>(s: Seq<T>, key: spec_fn(T) -> Seq<char>) -> bool {
    forall|i: int, j: int| 0 <= i < j < s.len() ==> !seq_lt(key(#[trigger] s[j]), key(#[trigger] s[i]))
}

/// A value with a string key it is ordered by.
pub trait Keyed: View + Sized {
    /// The key of a value's view.
    spec fn key_of(v: Self::V) -> Seq<char>;

    /// The key.
    fn key(&self) -> (k: &str)
        ensures
            k@ == Self::key_of(self@),
    ;
}

/// The key function of a keyed type, over views.
pub open spec fn key_fn<T: Keyed>() -> spec_fn(T::V) -> Seq<char> {
    |v: T::V| T::key_of(v)
}

proof fn lemma_insert_by_key_split<T>(r: Seq<T>, x: T, key: spec_fn(T) -> Seq<char>, j: int)
    requires
        0 <= j < r.len(),
        seq_lt(key(x), key(r[j])),
    ensures
        insert_by_key(r.subrange(0, j + 1), x, key) == insert_by_key(r.subrange(0, j), x, key)
            + r.subrange(j, j + 1),
{
    let s = r.subrange(0, j + 1);
    assert(s.subrange(0, s.len() - 1) =~= r.subrange(0, j));
    assert(s[s.len() - 1] == r[j]);
    assert(insert_by_key(r.subrange(0, j), x, key).push(r[j]) =~= insert_by_key(
        r.subrange(0, j),
        x,
        key,
    ) + r.subrange(j, j + 1));
}

/// Insert `x` into `r` after every element whose key does not order after it.
pub fn insert_keyed<T: Keyed>(r: &mut Vec<T>, x: T)
    ensures
        views_of_keyed(final(r)@) == insert_by_key(views_of_keyed(old(r)@), x@, key_fn::<T>()),
{
    let ghost rv = views_of_keyed(r@);
    let ghost key = key_fn::<T>();
    let mut j: usize = r.len();
    proof {
        assert(rv.subrange(0, rv.len() as int) =~= rv);
        assert(rv.subrange(rv.len() as int, rv.len() as int) =~= Seq::<T::V>::empty());
        assert(insert_by_key(rv, x@, key) =~= insert_by_key(rv.subrange(0, j as int), x@, key)
            + rv.subrange(j as int, rv.len() as int));
    }
    while j > 0 && str_lt(x.key(), r[j - 1].key())
        invariant
            j <= r.len(),
            r@ == old(r)@,
            rv == views_of_keyed(r@),
            key == key_fn::<T>(),
            insert_by_key(rv, x@, key) == insert_by_key(rv.subrange(0, j as int), x@, key)
                + rv.subrange(j as int, rv.len() as int),
        decreases j,
    {
        proof {
            assert(rv[j - 1] == r@[j - 1]@);
            assert(key(rv[j - 1]) == T::key_of(r@[j - 1]@));
            assert(key(x@) == T::key_of(x@));
            lemma_insert_by_key_split(rv, x@, key, j - 1);
            assert(rv.subrange(j - 1, j as int) + rv.subrange(j as int, rv.len() as int)
                =~= rv.subrange(j - 1, rv.len() as int));
        }
        j = j - 1;
    }
    proof {
        let pre = rv.subrange(0, j as int);
        if j > 0 {
            assert(pre[pre.len() - 1] == rv[j - 1]);
            assert(key(rv[j - 1]) == T::key_of(r@[j - 1]@));
            assert(insert_by_key(pre, x@, key) == pre.push(x@));
        } else {
            assert(insert_by_key(pre, x@, key) == seq![x@]);
        }
    }
    let ghost xv = x@;
    r.insert(j, x);
    proof {
        assert(views_of_keyed(r@) =~= rv.subrange(0, j as int).push(xv) + rv.subrange(
            j as int,
            rv.len() as int,
        ));
    }
}

/// The views of a sequence of keyed values.
pub open spec fn views_of_keyed<T: View>(s: Seq<T>) -> Seq<T::V> {
    s.map_values(|x: T| x@)
}

/// Stably sort `items` by key.
pub fn sort_keyed<T: Keyed>(items: Vec<T>) -> (r: Vec<T>)
    ensures
        views_of_keyed(r@) == sort_by_key(views_of_keyed(items@), key_fn::<T>()),
{
    let ghost all = views_of_keyed(items@);
    let ghost n = items.len();
    let mut rest = items;
    let mut out: Vec<T> = Vec::new();
    let mut k: usize = 0;
    proof {
        assert(views_of_keyed(out@) =~= sort_by_key(all.subrange(0, 0), key_fn::<T>()));
        assert(views_of_keyed(rest@) =~= all.subrange(0, n as int));
    }
    while rest.len() > 0
        invariant
            k <= n,
            all.len() == n,
            rest.len() == n - k,
            views_of_keyed(rest@) == all.subrange(k as int, n as int),
            views_of_keyed(out@) == sort_by_key(all.subrange(0, k as int), key_fn::<T>()),
        decreases rest.len(),
    {
        let ghost before = views_of_keyed(rest@);
        let ghost raw = rest@;
        let x = rest.remove(0);
        proof {
            assert(rest@ =~= raw.subrange(1, raw.len() as int));
            assert(x@ == before[0]);
            assert(views_of_keyed(rest@) =~= before.subrange(1, before.len() as int));
            assert(x@ == all[k as int]);
            assert(views_of_keyed(rest@) =~= all.subrange(k + 1, n as int));
            let s = all.subrange(0, k + 1);
            assert(s.subrange(0, s.len() - 1) =~= all.subrange(0, k as int));
            assert(s[s.len() - 1] == all[k as int]);
        }
        insert_keyed(&mut out, x);
        k = k + 1;
    }
    proof {
        assert(all.subrange(0, n as int) =~= all);
    }
    out
}

} // verus!

verus! {

broadcast use vstd::seq_lib::group_to_multiset_ensures;

/// `lt` is a strict total order, so "not after" chains: `c` not after `b` and
/// `b` not after `a` put `c` not after `a`.
proof fn lemma_not_lt_chain(a: Seq<char>, b: Seq<char>, c: Seq<char>)
    requires
        !seq_lt(a, b),
        !seq_lt(b, c),
    ensures
        !seq_lt(a, c),
{
    if seq_lt(a, c) {
        lemma_seq_lt_total(b, c);
        if seq_lt(c, b) {
            lemma_seq_lt_transitive(a, c, b);
        }
    }
}

/// Inserting `x` adds exactly one occurrence of `x`.
proof fn lemma_insert_by_key_multiset<T>(r: Seq<T>, x: T, key: spec_fn(T) -> Seq<char>)
    ensures
        insert_by_key(r, x, key).to_multiset() == r.to_multiset().insert(x),
    decreases r.len(),
{
    if r.len() == 0 {
        assert(seq![x] =~= r.push(x));
    } else if seq_lt(key(x), key(r[r.len() - 1])) {
        let p = r.subrange(0, r.len() - 1);
        let l = r[r.len() - 1];
        lemma_insert_by_key_multiset(p, x, key);
        assert(r =~= p.push(l));
        assert(insert_by_key(r, x, key).to_multiset() =~= r.to_multiset().insert(x));
    }
}

/// Inserting into a key-ordered sequence keeps it key-ordered.
proof fn lemma_insert_by_key_sorted<T>(r: Seq<T>, x: T, key: spec_fn(T) -> Seq<char>)
    requires
        sorted_by_key(r, key),
    ensures
        sorted_by_key(insert_by_key(r, x, key), key),
    decreases r.len(),
{
    let q = insert_by_key(r, x, key);
    if r.len() == 0 {
    } else if seq_lt(key(x), key(r[r.len() - 1])) {
        let p = r.subrange(0, r.len() - 1);
        let l = r[r.len() - 1];
        assert(sorted_by_key(p, key)) by {
            assert forall|i: int, j: int| 0 <= i < j < p.len() implies !seq_lt(
                key(#[trigger] p[j]),
                key(#[trigger] p[i]),
            ) by {
                assert(p[i] == r[i] && p[j] == r[j]);
            }
        }
        lemma_insert_by_key_sorted(p, x, key);
        lemma_insert_by_key_multiset(p, x, key);
        let q0 = insert_by_key(p, x, key);
        assert(q == q0.push(l));
        assert forall|i: int, j: int| 0 <= i < j < q.len() implies !seq_lt(
            key(#[trigger] q[j]),
            key(#[trigger] q[i]),
        ) by {
            if j == q.len() - 1 {
                let e = q0[i];
                assert(q[i] == e && q[j] == l);
                assert(q0.contains(e));
                assert(q0.to_multiset().count(e) > 0);
                if e == x {
                    lemma_seq_lt_asymmetric(key(x), key(l));
                } else {
                    assert(p.to_multiset().count(e) > 0);
                    assert(p.contains(e));
                    let k = choose|k: int| 0 <= k < p.len() && p[k] == e;
                    assert(r[k] == e);
                }
            } else {
                assert(q[i] == q0[i] && q[j] == q0[j]);
            }
        }
    } else {
        let l = r[r.len() - 1];
        assert(q == r.push(x));
        assert forall|i: int, j: int| 0 <= i < j < q.len() implies !seq_lt(
            key(#[trigger] q[j]),
            key(#[trigger] q[i]),
        ) by {
            if j == q.len() - 1 {
                assert(q[j] == x && q[i] == r[i]);
                if i < r.len() - 1 {
                    assert(!seq_lt(key(l), key(r[i])));
                    lemma_not_lt_chain(key(x), key(l), key(r[i]));
                }
            } else {
                assert(q[i] == r[i] && q[j] == r[j]);
            }
        }
    }
}

/// Inserting `x` adds `x` at the end of the elements of its key and leaves
/// the elements of every other key as they were.
proof fn lemma_insert_by_key_filter<T>(r: Seq<T>, x: T, key: spec_fn(T) -> Seq<char>, k: Seq<char>)
    ensures
        insert_by_key(r, x, key).filter(|y: T| key(y) == k) == (if key(x) == k {
            r.filter(|y: T| key(y) == k).push(x)
        } else {
            r.filter(|y: T| key(y) == k)
        }),
    decreases r.len(),
{
    let p = |y: T| key(y) == k;
    if r.len() == 0 {
        assert(seq![x] =~= r.push(x));
        r.lemma_filter_push(x, p);
    } else if seq_lt(key(x), key(r[r.len() - 1])) {
        let pre = r.subrange(0, r.len() - 1);
        let l = r[r.len() - 1];
        lemma_insert_by_key_filter(pre, x, key, k);
        insert_by_key(pre, x, key).lemma_filter_push(l, p);
        assert(r =~= pre.push(l));
        pre.lemma_filter_push(l, p);
        if key(x) == k {
            lemma_seq_lt_irreflexive(k);
            assert(key(l) != k);
        }
    } else {
        r.lemma_filter_push(x, p);
    }
}

/// Sorting by key puts the elements in key order.
pub proof fn law_sort_by_key_is_sorted<T>(s: Seq<T>, key: spec_fn(T) -> Seq<char>)
    ensures
        sorted_by_key(sort_by_key(s, key), key),
    decreases s.len(),
{
    if s.len() > 0 {
        law_sort_by_key_is_sorted(s.subrange(0, s.len() - 1), key);
        lemma_insert_by_key_sorted(sort_by_key(s.subrange(0, s.len() - 1), key), s[s.len() - 1], key);
    }
}

/// Sorting by key keeps every element, as often as it occurs: the result is
/// a permutation of the input.
pub proof fn law_sort_by_key_permutes<T>(s: Seq<T>, key: spec_fn(T) -> Seq<char>)
    ensures
        sort_by_key(s, key).to_multiset() == s.to_multiset(),
    decreases s.len(),
{
    if s.len() > 0 {
        let pre = s.subrange(0, s.len() - 1);
        law_sort_by_key_permutes(pre, key);
        lemma_insert_by_key_multiset(sort_by_key(pre, key), s[s.len() - 1], key);
        assert(s =~= pre.push(s[s.len() - 1]));
    }
}

/// Sorting by key is stable: the elements that share a key come out in the
/// order they went in.
pub proof fn law_sort_by_key_is_stable<T>(s: Seq<T>, key: spec_fn(T) -> Seq<char>, k: Seq<char>)
    ensures
        sort_by_key(s, key).filter(|y: T| key(y) == k) == s.filter(|y: T| key(y) == k),
    decreases s.len(),
{
    if s.len() > 0 {
        let pre = s.subrange(0, s.len() - 1);
        let l = s[s.len() - 1];
        law_sort_by_key_is_stable(pre, key, k);
        lemma_insert_by_key_filter(sort_by_key(pre, key), l, key, k);
        assert(s =~= pre.push(l));
        pre.lemma_filter_push(l, |y: T| key(y) == k);
    }
}

/// A strictly ascending sequence without `x`, with `x` put in its place.
proof fn lemma_insert_listed(r: Seq<Seq<char>>, x: Seq<char>) -> (q: Seq<Seq<char>>)
    requires
        strictly_sorted(r),
        !r.contains(x),
    ensures
        strictly_sorted(q),
        forall|y: Seq<char>| #[trigger] q.contains(y) <==> (r.contains(y) || y == x),
    decreases r.len(),
{
    if r.len() == 0 {
        let q = seq![x];
        assert forall|y: Seq<char>| #[trigger] q.contains(y) <==> (r.contains(y) || y == x) by {
            if q.contains(y) {
                assert(q[0] == y);
            }
            if y == x {
                assert(q[0] == y);
            }
        }
        q
    } else {
        let l = r[r.len() - 1];
        let p = r.drop_last();
        assert(r =~= p.push(l));
        if seq_lt(l, x) {
            let q = r.push(x);
            assert forall|i: int, j: int| 0 <= i < j < q.len() implies seq_lt(
                #[trigger] q[i],
                #[trigger] q[j],
            ) by {
                if j == q.len() - 1 {
                    if i < r.len() - 1 {
                        assert(seq_lt(r[i], r[r.len() - 1]));
                        lemma_seq_lt_transitive(r[i], l, x);
                    }
                } else {
                    assert(q[i] == r[i] && q[j] == r[j]);
                }
            }
            assert forall|y: Seq<char>| #[trigger] q.contains(y) <==> (r.contains(y) || y == x) by {
                if q.contains(y) {
                    let k = choose|k: int| 0 <= k < q.len() && q[k] == y;
                    if k < r.len() {
                        assert(r[k] == y);
                    }
                }
                if r.contains(y) {
                    let k = choose|k: int| 0 <= k < r.len() && r[k] == y;
                    assert(q[k] == y);
                }
                if y == x {
                    assert(q[q.len() - 1] == y);
                }
            }
            q
        } else {
            assert(r.contains(l));
            assert(l != x);
            lemma_seq_lt_total(l, x);
            assert(seq_lt(x, l));
            assert(strictly_sorted(p)) by {
                assert forall|i: int, j: int| 0 <= i < j < p.len() implies seq_lt(
                    #[trigger] p[i],
                    #[trigger] p[j],
                ) by {
                    assert(p[i] == r[i] && p[j] == r[j]);
                }
            }
            assert(!p.contains(x)) by {
                if p.contains(x) {
                    let k = choose|k: int| 0 <= k < p.len() && p[k] == x;
                    assert(r[k] == x);
                }
            }
            let q0 = lemma_insert_listed(p, x);
            let q = q0.push(l);
            assert forall|i: int, j: int| 0 <= i < j < q.len() implies seq_lt(
                #[trigger] q[i],
                #[trigger] q[j],
            ) by {
                if j == q.len() - 1 {
                    let e = q0[i];
                    assert(q[i] == e);
                    assert(q0.contains(e));
                    if e != x {
                        assert(p.contains(e));
                        let k = choose|k: int| 0 <= k < p.len() && p[k] == e;
                        assert(r[k] == e);
                        assert(seq_lt(r[k], r[r.len() - 1]));
                    }
                } else {
                    assert(q[i] == q0[i] && q[j] == q0[j]);
                }
            }
            assert forall|y: Seq<char>| #[trigger] q.contains(y) <==> (r.contains(y) || y == x) by {
                if q.contains(y) {
                    let k = choose|k: int| 0 <= k < q.len() && q[k] == y;
                    if k < q0.len() {
                        assert(q0[k] == y);
                        assert(q0.contains(y));
                        if y != x {
                            assert(p.contains(y));
                            let m = choose|m: int| 0 <= m < p.len() && p[m] == y;
                            assert(r[m] == y);
                        }
                    } else {
                        assert(y == l);
                    }
                }
                if r.contains(y) {
                    let k = choose|k: int| 0 <= k < r.len() && r[k] == y;
                    if k < r.len() - 1 {
                        assert(p[k] == y);
                        assert(p.contains(y));
                        assert(q0.contains(y));
                        let m = choose|m: int| 0 <= m < q0.len() && q0[m] == y;
                        assert(q[m] == y);
                    } else {
                        assert(q[q.len() - 1] == y);
                    }
                }
                if y == x {
                    assert(q0.contains(y));
                    let m = choose|m: int| 0 <= m < q0.len() && q0[m] == y;
                    assert(q[m] == y);
                }
            }
            q
        }
    }
}

/// A set whose members all occur in `s` has an ascending listing.
proof fn lemma_listing_of_subset(set: Set<Seq<char>>, s: Seq<Seq<char>>) -> (r: Seq<Seq<char>>)
    requires
        forall|x: Seq<char>| set.contains(x) ==> #[trigger] s.contains(x),
    ensures
        is_listing(set, r),
    decreases s.len(),
{
    if s.len() == 0 {
        let r = Seq::<Seq<char>>::empty();
        assert forall|x: Seq<char>| #[trigger] r.contains(x) <==> set.contains(x) by {
            if set.contains(x) {
                assert(s.contains(x));
            }
        }
        r
    } else {
        let x = s[s.len() - 1];
        let s0 = s.drop_last();
        let set0 = set.remove(x);
        assert forall|y: Seq<char>| set0.contains(y) implies #[trigger] s0.contains(y) by {
            assert(s.contains(y));
            let k = choose|k: int| 0 <= k < s.len() && s[k] == y;
            assert(k != s.len() - 1);
            assert(s0[k] == y);
        }
        let r0 = lemma_listing_of_subset(set0, s0);
        if set.contains(x) {
            assert(!r0.contains(x));
            let r = lemma_insert_listed(r0, x);
            assert forall|y: Seq<char>| #[trigger] r.contains(y) <==> set.contains(y) by {
                assert(r.contains(y) <==> (r0.contains(y) || y == x));
            }
            r
        } else {
            assert(set0 =~= set);
            r0
        }
    }
}

/// A set whose members all occur in `s` is listed by `listing`.
pub proof fn lemma_listing_exists(set: Set<Seq<char>>, s: Seq<Seq<char>>)
    requires
        forall|x: Seq<char>| set.contains(x) ==> #[trigger] s.contains(x),
    ensures
        is_listing(set, listing(set)),
{
    let r = lemma_listing_of_subset(set, s);
    lemma_listing_is(set, r);
}

/// The repeated names are reported once each, in ascending order: a name is
/// reported exactly when it occurs at two positions.
pub proof fn law_duplicates_listed_once_ascending(names: Seq<Seq<char>>)
    ensures
        strictly_sorted(duplicate_names(names)),
        forall|x: Seq<char>|
            #[trigger] duplicate_names(names).contains(x) <==> (exists|i: int, j: int|
                0 <= i < j < names.len() && names[i] == x && names[j] == x),
{
    assert forall|x: Seq<char>| repeated(names).contains(x) implies #[trigger] names.contains(x) by {
        let (i, j) = choose|i: int, j: int| 0 <= i < j < names.len() && names[i] == x && names[j] == x;
        assert(names[i] == x);
    }
    lemma_listing_exists(repeated(names), names);
}

/// Two key-ordered sequences with the same elements, as often each, are the
/// same sequence when no two different elements share a key.
pub proof fn lemma_sorted_by_key_unique<T>(s1: Seq<T>, s2: Seq<T>, key: spec_fn(T) -> Seq<char>)
    requires
        sorted_by_key(s1, key),
        sorted_by_key(s2, key),
        s1.to_multiset() == s2.to_multiset(),
        forall|x: T, y: T| s1.contains(x) && s1.contains(y) && key(x) == key(y) ==> x == y,
    ensures
        s1 == s2,
    decreases s1.len(),
{
    broadcast use vstd::multiset::group_multiset_axioms;

    assert(s1.to_multiset().len() == s1.len());
    assert(s2.to_multiset().len() == s2.len());
    if s1.len() == 0 {
        assert(s1 =~= s2);
    } else {
        let n = s1.len();
        let l1 = s1[n - 1];
        let l2 = s2[n - 1];
        assert(s1.contains(l1));
        assert(s1.to_multiset().count(l1) > 0);
        assert(s2.contains(l1));
        assert(s2.contains(l2));
        assert(s2.to_multiset().count(l2) > 0);
        assert(s1.contains(l2));
        let i1 = choose|i: int| 0 <= i < n && s2[i] == l1;
        let i2 = choose|i: int| 0 <= i < n && s1[i] == l2;
        lemma_seq_lt_irreflexive(key(l1));
        assert(!seq_lt(key(l2), key(l1))) by {
            if i1 < n - 1 {
                assert(!seq_lt(key(s2[n - 1]), key(s2[i1])));
            }
        }
        assert(!seq_lt(key(l1), key(l2))) by {
            if i2 < n - 1 {
                assert(!seq_lt(key(s1[n - 1]), key(s1[i2])));
            }
        }
        lemma_seq_lt_total(key(l1), key(l2));
        assert(l1 == l2);
        let p1 = s1.drop_last();
        let p2 = s2.drop_last();
        assert(s1 =~= p1.push(l1));
        assert(s2 =~= p2.push(l1));
        assert(p1.to_multiset() =~= s1.to_multiset().remove(l1));
        assert(p2.to_multiset() =~= s2.to_multiset().remove(l1));
        assert(sorted_by_key(p1, key)) by {
            assert forall|i: int, j: int| 0 <= i < j < p1.len() implies !seq_lt(
                key(#[trigger] p1[j]),
                key(#[trigger] p1[i]),
            ) by {
                assert(p1[i] == s1[i] && p1[j] == s1[j]);
            }
        }
        assert(sorted_by_key(p2, key)) by {
            assert forall|i: int, j: int| 0 <= i < j < p2.len() implies !seq_lt(
                key(#[trigger] p2[j]),
                key(#[trigger] p2[i]),
            ) by {
                assert(p2[i] == s2[i] && p2[j] == s2[j]);
            }
        }
        assert forall|x: T, y: T| p1.contains(x) && p1.contains(y) && key(x) == key(y) implies x == y by {
            let a = choose|a: int| 0 <= a < p1.len() && p1[a] == x;
            let b = choose|b: int| 0 <= b < p1.len() && p1[b] == y;
            assert(s1[a] == x && s1[b] == y);
            assert(s1.contains(x) && s1.contains(y));
        }
        lemma_sorted_by_key_unique(p1, p2, key);
    }
}

/// The multiset of the mapped elements that pass `p`, seen from the element
/// at `k`.
proof fn lemma_filter_map_multiset_at<T, U>(s: Seq<T>, k: int, p: spec_fn(T) -> bool, f: spec_fn(T) -> U)
    requires
        0 <= k < s.len(),
    ensures
        s.filter(p).map_values(f).to_multiset() == (if p(s[k]) {
            s.remove(k).filter(p).map_values(f).to_multiset().insert(f(s[k]))
        } else {
            s.remove(k).filter(p).map_values(f).to_multiset()
        }),
{
    broadcast use vstd::multiset::group_multiset_axioms;
    broadcast use vstd::seq_lib::group_filter_ensures;

    let a = s.subrange(0, k);
    let b = s.subrange(k + 1, s.len() as int);
    let x = s[k];
    assert(s =~= a + seq![x] + b);
    assert(s.remove(k) =~= a + b);
    Seq::filter_distributes_over_add(a + seq![x], b, p);
    Seq::filter_distributes_over_add(a, seq![x], p);
    Seq::filter_distributes_over_add(a, b, p);
    let fa = a.filter(p);
    let fb = b.filter(p);
    let fx = seq![x].filter(p);
    Seq::<T>::empty().lemma_filter_push(x, p);
    assert(seq![x] =~= Seq::<T>::empty().push(x));
    assert(Seq::<T>::empty().filter(p) =~= Seq::<T>::empty()) by {
        reveal(Seq::filter);
    }
    assert((fa + fx + fb).map_values(f) =~= fa.map_values(f) + fx.map_values(f) + fb.map_values(f));
    assert((fa + fb).map_values(f) =~= fa.map_values(f) + fb.map_values(f));
    vstd::seq_lib::lemma_multiset_commutative(fa.map_values(f) + fx.map_values(f), fb.map_values(f));
    vstd::seq_lib::lemma_multiset_commutative(fa.map_values(f), fx.map_values(f));
    vstd::seq_lib::lemma_multiset_commutative(fa.map_values(f), fb.map_values(f));
    if p(x) {
        assert(fx.map_values(f) =~= Seq::<U>::empty().push(f(x)));
        vstd::seq_lib::to_multiset_build(Seq::<U>::empty(), f(x));
        assert(Seq::<U>::empty().to_multiset() =~= vstd::multiset::Multiset::<U>::empty()) by {
            broadcast use vstd::seq_lib::group_to_multiset_ensures;
        }
        assert(s.filter(p).map_values(f).to_multiset() =~= s.remove(k).filter(p).map_values(
            f,
        ).to_multiset().insert(f(x)));
    } else {
        assert(fx.map_values(f) =~= Seq::<U>::empty());
        assert(Seq::<U>::empty().to_multiset() =~= vstd::multiset::Multiset::<U>::empty()) by {
            broadcast use vstd::seq_lib::group_to_multiset_ensures;
        }
        assert(s.filter(p).map_values(f).to_multiset() =~= s.remove(k).filter(p).map_values(
            f,
        ).to_multiset());
    }
}

/// Reordering a sequence does not change the multiset of the mapped elements
/// that pass a filter.
pub proof fn lemma_filter_map_multiset<T, U>(s1: Seq<T>, s2: Seq<T>, p: spec_fn(T) -> bool, f: spec_fn(T) -> U)
    requires
        s1.to_multiset() == s2.to_multiset(),
    ensures
        s1.filter(p).map_values(f).to_multiset() == s2.filter(p).map_values(f).to_multiset(),
    decreases s1.len(),
{
    broadcast use vstd::multiset::group_multiset_axioms;

    assert(s1.to_multiset().len() == s1.len());
    assert(s2.to_multiset().len() == s2.len());
    if s1.len() == 0 {
        assert(s1 =~= s2);
    } else {
        let n = s1.len();
        let x = s1[n - 1];
        assert(s1.contains(x));
        assert(s1.to_multiset().count(x) > 0);
        assert(s2.contains(x));
        let k = choose|k: int| 0 <= k < s2.len() && s2[k] == x;
        let r1 = s1.remove(n - 1);
        let r2 = s2.remove(k);
        assert(r1.to_multiset() =~= s1.to_multiset().remove(x));
        assert(r2.to_multiset() =~= s2.to_multiset().remove(x));
        lemma_filter_map_multiset(r1, r2, p, f);
        lemma_filter_map_multiset_at(s1, n - 1, p, f);
        lemma_filter_map_multiset_at(s2, k, p, f);
    }
}


/// A filter whose predicate holds everywhere keeps every element.
proof fn lemma_filter_keeps_all<T>(s: Seq<T>, p: spec_fn(T) -> bool)
    requires
        forall|x: T| #[trigger] p(x),
    ensures
        s.filter(p) == s,
    decreases s.len(),
{
    broadcast use vstd::seq_lib::group_filter_ensures;

    if s.len() == 0 {
        assert(s.filter(p).len() == 0);
        assert(s.filter(p) =~= s);
    } else {
        let init = s.drop_last();
        lemma_filter_keeps_all(init, p);
        init.lemma_filter_push(s.last(), p);
        assert(p(s.last()));
        assert(init.push(s.last()) =~= s);
    }
}

/// Reordering a sequence does not change the multiset of its mapped
/// elements.
pub proof fn lemma_map_multiset<T, U>(s1: Seq<T>, s2: Seq<T>, f: spec_fn(T) -> U)
    requires
        s1.to_multiset() == s2.to_multiset(),
    ensures
        s1.map_values(f).to_multiset() == s2.map_values(f).to_multiset(),
{
    let p = |x: T| true;
    lemma_filter_map_multiset(s1, s2, p, f);
    lemma_filter_keeps_all(s1, p);
    lemma_filter_keeps_all(s2, p);
}

} // verus!
