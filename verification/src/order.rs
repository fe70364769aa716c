//! Lexicographic order on strings (the order of `String`'s `Ord`: by
//! code point, a proper prefix first) and a verified sort.

use vstd::prelude::*;
use vstd::relations::{sorted_by, total_ordering};

use crate::text::{chars_of, clone_string};

verus! {

/// `a` sorts strictly before `b`.
pub open spec fn lex_lt(a: Seq<char>, b: Seq<char>) -> bool
    decreases a.len(),
{
    if a.len() == 0 {
        b.len() > 0
    } else if b.len() == 0 {
        false
    } else if a[0] != b[0] {
        (a[0] as int) < (b[0] as int)
    } else {
        lex_lt(a.skip(1), b.skip(1))
    }
}

pub proof fn lemma_lex_irreflexive(a: Seq<char>)
    ensures
        !lex_lt(a, a),
    decreases a.len(),
{
    if a.len() > 0 {
        lemma_lex_irreflexive(a.skip(1));
    }
}

pub proof fn lemma_lex_total(a: Seq<char>, b: Seq<char>)
    ensures
        a != b ==> lex_lt(a, b) || lex_lt(b, a),
        !(lex_lt(a, b) && lex_lt(b, a)),
    decreases a.len(),
{
    if a.len() > 0 && b.len() > 0 {
        lemma_lex_total(a.skip(1), b.skip(1));
        if a[0] == b[0] && a != b {
            assert(a.skip(1) != b.skip(1)) by {
                if a.skip(1) == b.skip(1) {
                    assert(a =~= seq![a[0]] + a.skip(1));
                    assert(b =~= seq![b[0]] + b.skip(1));
                }
            }
        }
    } else if a.len() == 0 && b.len() == 0 {
        assert(a =~= b);
    }
}

pub proof fn lemma_lex_transitive(a: Seq<char>, b: Seq<char>, c: Seq<char>)
    requires
        lex_lt(a, b),
        lex_lt(b, c),
    ensures
        lex_lt(a, c),
    decreases a.len(),
{
    if a.len() > 0 && b.len() > 0 && c.len() > 0 {
        if a[0] == b[0] && b[0] == c[0] {
            lemma_lex_transitive(a.skip(1), b.skip(1), c.skip(1));
        }
    }
}

/// `s` is strictly ascending.
pub open spec fn strictly_sorted(s: Seq<Seq<char>>) -> bool {
    forall|i: int, j: int| 0 <= i < j < s.len() ==> lex_lt(#[trigger] s[i], #[trigger] s[j])
}

/// Two strictly ascending sequences holding the same elements are equal.
pub proof fn lemma_sorted_unique(s: Seq<Seq<char>>, t: Seq<Seq<char>>)
    requires
        strictly_sorted(s),
        strictly_sorted(t),
        s.to_set() == t.to_set(),
    ensures
        s == t,
    decreases s.len(),
{
    if s.len() == 0 {
        if t.len() > 0 {
            assert(t.to_set().contains(t[0]));
        }
        assert(s =~= t);
    } else {
        assert(s.to_set().contains(s[0]));
        if t.len() == 0 {
            assert(!t.to_set().contains(s[0]));
        }
        assert(t.to_set().contains(t[0]));
        let j = choose|j: int| 0 <= j < t.len() && t[j] == s[0];
        let i = choose|i: int| 0 <= i < s.len() && s[i] == t[0];
        if j > 0 {
            assert(lex_lt(t[0], t[j]));
            if i > 0 {
                assert(lex_lt(s[0], s[i]));
                lemma_lex_total(s[0], s[i]);
            } else {
                lemma_lex_irreflexive(s[0]);
            }
        }
        assert(s[0] == t[0]);
        let s1 = s.drop_first();
        let t1 = t.drop_first();
        assert forall|x: Seq<char>| s1.to_set().contains(x) implies t1.to_set().contains(x) by {
            let k = choose|k: int| 0 <= k < s1.len() && s1[k] == x;
            assert(s[k + 1] == x);
            assert(lex_lt(s[0], x));
            lemma_lex_irreflexive(x);
            assert(s.to_set().contains(x));
            let m = choose|m: int| 0 <= m < t.len() && t[m] == x;
            assert(m != 0);
            assert(t1[m - 1] == x);
        }
        assert forall|x: Seq<char>| t1.to_set().contains(x) implies s1.to_set().contains(x) by {
            let k = choose|k: int| 0 <= k < t1.len() && t1[k] == x;
            assert(t[k + 1] == x);
            assert(lex_lt(t[0], x));
            lemma_lex_irreflexive(x);
            assert(t.to_set().contains(x));
            let m = choose|m: int| 0 <= m < s.len() && s[m] == x;
            assert(m != 0);
            assert(s1[m - 1] == x);
        }
        assert(s1.to_set() =~= t1.to_set());
        lemma_sorted_unique(s1, t1);
        assert(s =~= seq![s[0]] + s1);
        assert(t =~= seq![t[0]] + t1);
    }
}

/// The distinct strings of `s`, ascending.
pub open spec fn sorted_set(s: Seq<Seq<char>>) -> Seq<Seq<char>> {
    choose|t: Seq<Seq<char>>| strictly_sorted(t) && t.to_set() == s.to_set()
}

/// A strictly ascending sequence with the elements of `s` is `sorted_set(s)`.
pub proof fn lemma_sorted_set_is(s: Seq<Seq<char>>, t: Seq<Seq<char>>)
    requires
        strictly_sorted(t),
        t.to_set() == s.to_set(),
    ensures
        sorted_set(s) == t,
{
    let c = sorted_set(s);
    assert(strictly_sorted(c) && c.to_set() == s.to_set());
    lemma_sorted_unique(c, t);
}

/// Executable `lex_lt`.
pub fn lex_less(a: &str, b: &str) -> (r: bool)
    ensures
        r == lex_lt(a@, b@),
{
    let av = chars_of(a);
    let bv = chars_of(b);
    let mut i: usize = 0;
    assert(av@.skip(0) =~= av@);
    assert(bv@.skip(0) =~= bv@);
    while i < av.len() && i < bv.len()
        invariant
            i <= av.len(),
            i <= bv.len(),
            lex_lt(a@, b@) == lex_lt(av@.skip(i as int), bv@.skip(i as int)),
            av@ == a@,
            bv@ == b@,
        decreases av.len() - i,
    {
        let x = av[i];
        let y = bv[i];
        assert(av@.skip(i as int)[0] == x);
        assert(bv@.skip(i as int)[0] == y);
        if x != y {
            return x < y;
        }
        assert(av@.skip(i as int).skip(1) =~= av@.skip(i + 1));
        assert(bv@.skip(i as int).skip(1) =~= bv@.skip(i + 1));
        i += 1;
    }
    i < bv.len()
}

pub open spec fn views_of(v: Seq<String>) -> Seq<Seq<char>> {
    v.map_values(|s: String| s@)
}

/// The strings of `v`, strictly ascending, each once.
pub fn sorted_distinct(v: &Vec<String>) -> (r: Vec<String>)
    ensures
        strictly_sorted(views_of(r@)),
        views_of(r@).to_set() == views_of(v@).to_set(),
        views_of(r@) == sorted_set(views_of(v@)),
{
    let mut out: Vec<String> = Vec::new();
    let mut i: usize = 0;
    while i < v.len()
        invariant
            i <= v.len(),
            strictly_sorted(views_of(out@)),
            views_of(out@).to_set() == views_of(v@).take(i as int).to_set(),
        decreases v.len() - i,
    {
        let x = &v[i];
        let ghost xs = views_of(out@);
        // first position whose element does not sort before x
        let mut k: usize = 0;
        while k < out.len() && lex_less(out[k].as_str(), x.as_str())
            invariant
                k <= out.len(),
                xs == views_of(out@),
                forall|j: int| 0 <= j < k ==> lex_lt(#[trigger] xs[j], x@),
            decreases out.len() - k,
        {
            k += 1;
        }
        let dup = k < out.len() && crate::text::str_eq(out[k].as_str(), x.as_str());
        assert(views_of(v@).take(i + 1) =~= views_of(v@).take(i as int).push(x@));
        if !dup {
            proof {
                if k < out.len() {
                    lemma_lex_total(xs[k as int], x@);
                }
            }
            out.insert(k, clone_string(x));
            proof {
                let ys = views_of(out@);
                assert(ys =~= xs.insert(k as int, x@));
                assert forall|p: int, q: int| 0 <= p < q < ys.len() implies lex_lt(#[trigger] ys[p], #[trigger] ys[q]) by {
                    if q < k {
                        assert(ys[p] == xs[p] && ys[q] == xs[q]);
                    } else if q == k {
                        assert(ys[p] == xs[p]);
                    } else if p == k {
                        assert(ys[q] == xs[q - 1]);
                        if q - 1 > k {
                            lemma_lex_transitive(x@, xs[k as int], xs[q - 1]);
                        }
                    } else if p < k {
                        assert(ys[p] == xs[p] && ys[q] == xs[q - 1]);
                    } else {
                        assert(ys[p] == xs[p - 1] && ys[q] == xs[q - 1]);
                    }
                }
                assert(ys.to_set() =~= xs.to_set().insert(x@)) by {
                    assert forall|e: Seq<char>| ys.to_set().contains(e) <==> xs.to_set().insert(x@).contains(e) by {
                        if ys.to_set().contains(e) {
                            let p = choose|p: int| 0 <= p < ys.len() && ys[p] == e;
                            if p < k {
                                assert(xs[p] == e);
                            } else if p > k {
                                assert(xs[p - 1] == e);
                            }
                        }
                        if xs.to_set().contains(e) {
                            let p = choose|p: int| 0 <= p < xs.len() && xs[p] == e;
                            if p < k {
                                assert(ys[p] == e);
                            } else {
                                assert(ys[p + 1] == e);
                            }
                        }
                        if e == x@ {
                            assert(ys[k as int] == e);
                        }
                    }
                }
                views_of(v@).take(i as int).lemma_push_to_set_commute(x@);
            }
        } else {
            proof {
                assert(xs[k as int] == x@);
                assert(xs.to_set().contains(x@));
                views_of(v@).take(i as int).lemma_push_to_set_commute(x@);
                assert(xs.to_set().insert(x@) =~= xs.to_set());
            }
        }
        i += 1;
    }
    assert(views_of(v@).take(v.len() as int) =~= views_of(v@));
    proof {
        lemma_sorted_set_is(views_of(v@), views_of(out@));
    }
    out
}

/// `a` sorts before `b` or equals it.
pub open spec fn lex_le(a: Seq<char>, b: Seq<char>) -> bool {
    !lex_lt(b, a)
}

/// `lex_le` as a relation.
pub open spec fn lex_le_rel() -> spec_fn(Seq<char>, Seq<char>) -> bool {
    |a: Seq<char>, b: Seq<char>| lex_le(a, b)
}

pub proof fn lemma_lex_le_total_ordering()
    ensures
        total_ordering(lex_le_rel()),
{
    let r = lex_le_rel();
    assert forall|a: Seq<char>| #[trigger] r(a, a) by {
        lemma_lex_irreflexive(a);
    }
    assert forall|a: Seq<char>, b: Seq<char>| #[trigger] r(a, b) && #[trigger] r(b, a) implies a == b by {
        lemma_lex_total(a, b);
    }
    assert forall|a: Seq<char>, b: Seq<char>, c: Seq<char>| #[trigger] r(a, b) && #[trigger] r(b, c) implies r(
        a,
        c,
    ) by {
        lemma_lex_total(a, b);
        lemma_lex_total(b, c);
        if lex_lt(c, a) {
            if a != b {
                lemma_lex_transitive(c, a, b);
            }
        }
    }
    assert forall|a: Seq<char>, b: Seq<char>| #[trigger] r(a, b) || #[trigger] r(b, a) by {
        lemma_lex_total(a, b);
    }
}

/// The strings of `v` in ascending order (equal strings kept).
pub open spec fn sorted_views(v: Seq<String>) -> Seq<Seq<char>> {
    views_of(v).sort_by(lex_le_rel())
}

/// Sort strings ascending, as `sort` on a `Vec<String>` does.
pub fn sort_strings(v: &Vec<String>) -> (r: Vec<String>)
    ensures
        views_of(r@) == sorted_views(v@),
{
    let ghost le = lex_le_rel();
    proof {
        lemma_lex_le_total_ordering();
    }
    let mut out: Vec<String> = Vec::new();
    let mut i: usize = 0;
    assert(views_of(v@).take(0) =~= views_of(out@));
    while i < v.len()
        invariant
            i <= v.len(),
            le == lex_le_rel(),
            sorted_by(views_of(out@), le),
            views_of(out@).to_multiset() == views_of(v@).take(i as int).to_multiset(),
        decreases v.len() - i,
    {
        let x = &v[i];
        let ghost xs = views_of(out@);
        let mut k: usize = 0;
        while k < out.len() && !lex_less(x.as_str(), out[k].as_str())
            invariant
                k <= out.len(),
                xs == views_of(out@),
                forall|j: int| 0 <= j < k ==> !lex_lt(x@, #[trigger] xs[j]),
            decreases out.len() - k,
        {
            k += 1;
        }
        assert(views_of(v@).take(i + 1) =~= views_of(v@).take(i as int).push(x@));
        out.insert(k, clone_string(x));
        proof {
            let ys = views_of(out@);
            assert(ys =~= xs.insert(k as int, x@));
            assert forall|p: int, q: int| 0 <= p < q < ys.len() implies #[trigger] le(ys[p], ys[q]) by {
                if q < k {
                    assert(ys[p] == xs[p] && ys[q] == xs[q]);
                    assert(le(xs[p], xs[q]));
                } else if q == k {
                    assert(ys[p] == xs[p]);
                } else if p == k {
                    assert(ys[q] == xs[q - 1]);
                    assert(lex_lt(x@, xs[k as int]));
                    if q - 1 > k {
                        assert(le(xs[k as int], xs[q - 1]));
                        lemma_lex_total(xs[k as int], xs[q - 1]);
                        if xs[k as int] != xs[q - 1] {
                            lemma_lex_transitive(x@, xs[k as int], xs[q - 1]);
                        }
                    }
                    lemma_lex_total(x@, xs[q - 1]);
                } else if p < k {
                    assert(ys[p] == xs[p] && ys[q] == xs[q - 1]);
                    assert(le(xs[p], xs[q - 1]));
                } else {
                    assert(ys[p] == xs[p - 1] && ys[q] == xs[q - 1]);
                    assert(le(xs[p - 1], xs[q - 1]));
                }
            }
            vstd::seq_lib::to_multiset_insert(xs, k as int, x@);
            vstd::seq_lib::to_multiset_build(views_of(v@).take(i as int), x@);
        }
        i += 1;
    }
    proof {
        assert(views_of(v@).take(v.len() as int) =~= views_of(v@));
        views_of(v@).lemma_sort_by_ensures(le);
        vstd::seq_lib::lemma_sorted_unique(views_of(out@), views_of(v@).sort_by(le), le);
    }
    out
}

/// A copy of each string, in order.
pub fn clone_strings(v: &Vec<String>) -> (r: Vec<String>)
    ensures
        views_of(r@) == views_of(v@),
{
    let mut r: Vec<String> = Vec::new();
    let mut i: usize = 0;
    while i < v.len()
        invariant
            i <= v.len(),
            views_of(r@) == views_of(v@).take(i as int),
        decreases v.len() - i,
    {
        let ghost prev = r@;
        r.push(clone_string(&v[i]));
        assert(views_of(r@) =~= views_of(prev).push(v@[i as int]@));
        assert(views_of(v@).take(i + 1) =~= views_of(v@).take(i as int).push(v@[i as int]@));
        i += 1;
    }
    assert(views_of(v@).take(v.len() as int) =~= views_of(v@));
    r
}

} // verus!
