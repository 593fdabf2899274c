//! Ordering of item paths: lexicographic byte order on the file name, with
//! the whole path as tie-break, and a verified insertion sort that import
//! uses to fix a deterministic traversal order.

use vstd::prelude::*;
use vstd::relations::sorted_by;
use vstd::seq_lib::group_to_multiset_ensures;

use crate::paths::{bytes_eq, find_name_start, lemma_name_start_bounds, name_of, tail_from};

verus! {

/// Lexicographic byte order: shorter prefixes come first, bytes decide
/// otherwise.
pub open spec fn lex_le(a: Seq<u8>, b: Seq<u8>) -> bool
    decreases a.len(),
{
    if a.len() == 0 {
        true
    } else if b.len() == 0 {
        false
    } else if a[0] < b[0] {
        true
    } else if a[0] > b[0] {
        false
    } else {
        lex_le(a.drop_first(), b.drop_first())
    }
}

/// Import order: by file name first, whole path as tie-break.
pub open spec fn key_le(a: Seq<u8>, b: Seq<u8>) -> bool {
    if name_of(a) == name_of(b) {
        lex_le(a, b)
    } else {
        lex_le(name_of(a), name_of(b))
    }
}

/// The import order as a relation value, for `sorted_by`.
pub open spec fn key_order() -> spec_fn(Seq<u8>, Seq<u8>) -> bool {
    |a: Seq<u8>, b: Seq<u8>| key_le(a, b)
}

/// The byte sequences a vector of byte vectors holds.
pub open spec fn views_of(s: Seq<Vec<u8>>) -> Seq<Seq<u8>> {
    Seq::new(s.len(), |i: int| s[i]@)
}

pub proof fn lemma_lex_le_total(a: Seq<u8>, b: Seq<u8>)
    ensures
        lex_le(a, b) || lex_le(b, a),
    decreases a.len(),
{
    if a.len() > 0 && b.len() > 0 && a[0] == b[0] {
        lemma_lex_le_total(a.drop_first(), b.drop_first());
    }
}

pub proof fn lemma_lex_le_trans(a: Seq<u8>, b: Seq<u8>, c: Seq<u8>)
    requires
        lex_le(a, b),
        lex_le(b, c),
    ensures
        lex_le(a, c),
    decreases a.len(),
{
    if a.len() > 0 {
        if a[0] == b[0] && b[0] == c[0] {
            lemma_lex_le_trans(a.drop_first(), b.drop_first(), c.drop_first());
        }
    }
}

pub proof fn lemma_lex_le_antisym(a: Seq<u8>, b: Seq<u8>)
    requires
        lex_le(a, b),
        lex_le(b, a),
    ensures
        a == b,
    decreases a.len(),
{
    if a.len() == 0 {
        assert(a =~= b);
    } else {
        assert(b.len() > 0);
        assert(a[0] == b[0]);
        lemma_lex_le_antisym(a.drop_first(), b.drop_first());
        assert(a.len() == b.len());
        assert(a =~= b) by {
            assert forall|i: int| 0 < i < a.len() implies a[i] == b[i] by {
                assert(a.drop_first()[i - 1] == b.drop_first()[i - 1]);
            }
        };
    }
}

pub proof fn lemma_key_le_total(a: Seq<u8>, b: Seq<u8>)
    ensures
        key_le(a, b) || key_le(b, a),
{
    lemma_lex_le_total(name_of(a), name_of(b));
    lemma_lex_le_total(a, b);
}

pub proof fn lemma_key_le_trans(a: Seq<u8>, b: Seq<u8>, c: Seq<u8>)
    requires
        key_le(a, b),
        key_le(b, c),
    ensures
        key_le(a, c),
{
    let na = name_of(a);
    let nb = name_of(b);
    let nc = name_of(c);
    if na == nb && nb == nc {
        lemma_lex_le_trans(a, b, c);
    } else if na == nb {
        // key_le(b, c) compares names, and na == nb.
    } else if nb == nc {
        // key_le(a, b) compares names, and nb == nc.
    } else {
        lemma_lex_le_trans(na, nb, nc);
        if na == nc {
            lemma_lex_le_antisym(na, nb);
        }
    }
}

pub proof fn lemma_views_remove(s: Seq<Vec<u8>>, i: int)
    requires
        0 <= i < s.len(),
    ensures
        views_of(s.remove(i)) =~= views_of(s).remove(i),
{
}

pub proof fn lemma_views_insert(s: Seq<Vec<u8>>, i: int, x: Vec<u8>)
    requires
        0 <= i <= s.len(),
    ensures
        views_of(s.insert(i, x)) =~= views_of(s).insert(i, x@),
{
    assert forall|j: int| 0 <= j < s.len() + 1 implies views_of(s.insert(i, x))[j] == views_of(
        s,
    ).insert(i, x@)[j] by {
        if j < i {
            assert(s.insert(i, x)[j] == s[j]);
        } else if j == i {
            assert(s.insert(i, x)[j] == x);
        } else {
            assert(s.insert(i, x)[j] == s[j - 1]);
        }
    }
}

/// Inserting an element anywhere adds exactly it to the multiset.
proof fn lemma_to_multiset_insert<A>(s: Seq<A>, i: int, x: A)
    requires
        0 <= i <= s.len(),
    ensures
        s.insert(i, x).to_multiset() == s.to_multiset().insert(x),
{
    broadcast use group_to_multiset_ensures;

    let t = s.insert(i, x);
    t.to_multiset_ensures();
    assert(t.remove(i) =~= s);
    assert(t[i] == x);
    assert(s.to_multiset() =~= t.to_multiset().remove(x));
    assert(t.contains(x)) by {
        assert(t[i] == x);
    };
    assert(t.to_multiset().count(x) > 0);
    assert(t.to_multiset() =~= s.to_multiset().insert(x)) by {
        assert(forall|y: A|
            s.to_multiset().insert(x).count(y) == t.to_multiset().remove(x).insert(x).count(y));
    };
}

/// Lexicographic comparison of two byte vectors.
pub fn lex_le_bytes(a: &Vec<u8>, b: &Vec<u8>) -> (r: bool)
    ensures
        r == lex_le(a@, b@),
{
    proof {
        assert(a@.skip(0) =~= a@);
        assert(b@.skip(0) =~= b@);
    }
    let mut t: usize = 0;
    while t < a.len() && t < b.len()
        invariant
            t <= a@.len(),
            t <= b@.len(),
            lex_le(a@, b@) == lex_le(a@.skip(t as int), b@.skip(t as int)),
        decreases a@.len() - t,
    {
        proof {
            assert(a@.skip(t as int)[0] == a@[t as int]);
            assert(b@.skip(t as int)[0] == b@[t as int]);
        }
        if a[t] < b[t] {
            return true;
        }
        if a[t] > b[t] {
            return false;
        }
        proof {
            assert(a@.skip(t as int).drop_first() =~= a@.skip(t + 1));
            assert(b@.skip(t as int).drop_first() =~= b@.skip(t + 1));
        }
        t = t + 1;
    }
    t >= a.len()
}

/// Comparison in import order: file name first, whole path as tie-break.
pub fn key_le_bytes(a: &Vec<u8>, b: &Vec<u8>) -> (r: bool)
    ensures
        r == key_le(a@, b@),
{
    proof {
        lemma_name_start_bounds(a@);
        lemma_name_start_bounds(b@);
    }
    let sa = find_name_start(a);
    let sb = find_name_start(b);
    let na = tail_from(a, sa);
    let nb = tail_from(b, sb);
    if bytes_eq(&na, &nb) {
        lex_le_bytes(a, b)
    } else {
        lex_le_bytes(&na, &nb)
    }
}

/// Sort paths into import order: sorted output, and exactly the same
/// collection of paths.
pub fn sort_paths(v: Vec<Vec<u8>>) -> (r: Vec<Vec<u8>>)
    ensures
        sorted_by(views_of(r@), key_order()),
        views_of(r@).to_multiset() == views_of(v@).to_multiset(),
        r@.len() == v@.len(),
{
    broadcast use group_to_multiset_ensures;

    let ghost orig = views_of(v@);
    let mut v = v;
    if v.len() == 0 {
        proof {
            assert(views_of(v@) =~= orig);
        }
        return v;
    }
    let mut i: usize = 1;
    while i < v.len()
        invariant
            1 <= i <= v@.len(),
            v@.len() == orig.len(),
            forall|p: int, q: int|
                0 <= p < q < i ==> #[trigger] key_le(views_of(v@)[p], views_of(v@)[q]),
            views_of(v@).to_multiset() == orig.to_multiset(),
        decreases v@.len() - i,
    {
        let ghost w = views_of(v@);
        let mut pos: usize = i;
        let mut fits = false;
        while pos > 0 && !fits
            invariant
                pos <= i < v@.len(),
                views_of(v@) == w,
                fits ==> pos > 0 && key_le(w[pos - 1], w[i as int]),
                forall|j: int| pos <= j < i ==> key_le(w[i as int], #[trigger] w[j]),
            decreases pos + (if fits { 0int } else { 1int }),
        {
            if key_le_bytes(&v[pos - 1], &v[i]) {
                fits = true;
            } else {
                proof {
                    lemma_key_le_total(w[pos - 1], w[i as int]);
                }
                pos = pos - 1;
            }
        }
        let ghost x_view = w[i as int];
        let ghost vseq = v@;
        let x = v.remove(i);
        proof {
            lemma_views_remove(vseq, i as int);
        }
        let ghost vseq2 = v@;
        v.insert(pos, x);
        proof {
            lemma_views_insert(vseq2, pos as int, x);
        }
        let ghost nv = views_of(v@);
        proof {
            assert(nv =~= w.remove(i as int).insert(pos as int, x_view));
            // The new collection of paths is unchanged.
            w.to_multiset_ensures();
            assert(w.remove(i as int).to_multiset() == w.to_multiset().remove(x_view));
            lemma_to_multiset_insert(w.remove(i as int), pos as int, x_view);
            assert(w.contains(x_view)) by {
                assert(w[i as int] == x_view);
            };
            assert(w.to_multiset().count(x_view) > 0);
            assert(nv.to_multiset() =~= w.to_multiset()) by {
                assert(forall|y: Seq<u8>|
                    nv.to_multiset().count(y) == w.to_multiset().remove(x_view).insert(
                        x_view,
                    ).count(y));
            };
            // The prefix up to and including the inserted element is ordered.
            assert forall|p: int, q: int| 0 <= p < q < i + 1 implies #[trigger] key_le(
                nv[p],
                nv[q],
            ) by {
                let pi = pos as int;
                if q < pi {
                    assert(key_le(w[p], w[q]));
                } else if q == pi {
                    if p == pi - 1 {
                        assert(key_le(w[pi - 1], x_view));
                    } else {
                        assert(key_le(w[p], w[pi - 1]));
                        assert(key_le(w[pi - 1], x_view));
                        lemma_key_le_trans(w[p], w[pi - 1], x_view);
                    }
                } else {
                    if p < pi {
                        assert(key_le(w[p], w[q - 1]));
                    } else if p == pi {
                        assert(key_le(x_view, w[q - 1]));
                    } else {
                        assert(key_le(w[p - 1], w[q - 1]));
                    }
                }
            }
        }
        i = i + 1;
    }
    proof {
        let nv = views_of(v@);
        assert(sorted_by(nv, key_order())) by {
            assert forall|p: int, q: int| 0 <= p < q < nv.len() implies #[trigger] (key_order()(
                nv[p],
                nv[q],
            )) by {
                assert(key_le(nv[p], nv[q]));
            }
        };
    }
    v
}

} // verus!
