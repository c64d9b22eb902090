//! The order of texts, and lists of texts kept sorted and free of
//! duplicates: the form in which warnings and lookup values are handed on.

use vstd::prelude::*;
use vstd::string::*;
use crate::text::to_chars;

verus! {

/// Whether `a` comes before `b` in the order of texts: character by
/// character by code point, a proper prefix before its extensions.
pub open spec fn text_lt(a: Seq<char>, b: Seq<char>) -> bool
    decreases a.len(),
{
    if a.len() == 0 {
        b.len() > 0
    } else if b.len() == 0 {
        false
    } else if a[0] != b[0] {
        (a[0] as int) < (b[0] as int)
    } else {
        text_lt(a.drop_first(), b.drop_first())
    }
}

/// No text comes before itself.
pub proof fn lemma_lt_irreflexive(a: Seq<char>)
    ensures
        !text_lt(a, a),
    decreases a.len(),
{
    if a.len() > 0 {
        lemma_lt_irreflexive(a.drop_first());
    }
}

/// The order of texts is transitive.
pub proof fn lemma_lt_transitive(a: Seq<char>, b: Seq<char>, c: Seq<char>)
    requires
        text_lt(a, b),
        text_lt(b, c),
    ensures
        text_lt(a, c),
    decreases a.len(),
{
    if a.len() > 0 && b.len() > 0 && c.len() > 0 {
        if a[0] == b[0] && b[0] == c[0] {
            lemma_lt_transitive(a.drop_first(), b.drop_first(), c.drop_first());
        }
    }
}

/// Two texts that agree on their first `i` characters are ordered as
/// their remainders are.
pub proof fn lemma_lt_after_common_prefix(a: Seq<char>, b: Seq<char>, i: int)
    requires
        0 <= i <= a.len(),
        i <= b.len(),
        a.take(i) == b.take(i),
    ensures
        text_lt(a, b) == text_lt(a.skip(i), b.skip(i)),
    decreases i,
{
    if i == 0 {
        assert(a.skip(0) =~= a);
        assert(b.skip(0) =~= b);
    } else {
        assert(a[0] == a.take(i)[0]);
        assert(b[0] == b.take(i)[0]);
        let a1 = a.drop_first();
        let b1 = b.drop_first();
        assert(a1.take(i - 1) =~= a.take(i).drop_first());
        assert(b1.take(i - 1) =~= b.take(i).drop_first());
        lemma_lt_after_common_prefix(a1, b1, i - 1);
        assert(a1.skip(i - 1) =~= a.skip(i));
        assert(b1.skip(i - 1) =~= b.skip(i));
    }
}

/// How one text stands to another in the order of texts.
#[derive(Debug, Clone, Copy, PartialEq, Eq, Structural)]
pub enum Rank {
    Before,
    Same,
    After,
}

/// Tells how `a` stands to `b` in the order of texts.
pub fn rank(a: &str, b: &str) -> (r: Rank)
    ensures
        r == Rank::Before <==> text_lt(a@, b@),
        r == Rank::Same <==> a@ == b@,
        r == Rank::After <==> text_lt(b@, a@),
{
    let x = to_chars(a);
    let y = to_chars(b);
    let mut i: usize = 0;
    while i < x.len() && i < y.len() && x[i] == y[i]
        invariant
            i <= x.len(),
            i <= y.len(),
            x@.take(i as int) == y@.take(i as int),
        decreases x.len() - i,
    {
        proof {
            assert(x@.take(i + 1) =~= x@.take(i as int).push(x@[i as int]));
            assert(y@.take(i + 1) =~= y@.take(i as int).push(y@[i as int]));
        }
        i = i + 1;
    }
    proof {
        lemma_lt_after_common_prefix(x@, y@, i as int);
        lemma_lt_after_common_prefix(y@, x@, i as int);
        let p = x@.skip(i as int);
        let q = y@.skip(i as int);
        if i == x.len() && i == y.len() {
            assert(x@ =~= x@.take(i as int));
            assert(y@ =~= y@.take(i as int));
            lemma_lt_irreflexive(x@);
        } else if i < x.len() && i < y.len() {
            assert(p[0] == x@[i as int]);
            assert(q[0] == y@[i as int]);
            assert(x@ != y@);
        } else {
            assert(x@.len() != y@.len());
        }
    }
    if i == x.len() {
        if i == y.len() {
            Rank::Same
        } else {
            Rank::Before
        }
    } else if i == y.len() {
        Rank::After
    } else if x[i] < y[i] {
        Rank::Before
    } else {
        Rank::After
    }
}

/// Whether the texts of `v` stand in strictly rising order, so that none
/// occurs twice.
pub open spec fn strictly_sorted(v: Seq<Seq<char>>) -> bool {
    forall|i: int, j: int| 0 <= i < j < v.len() ==> text_lt(#[trigger] v[i], #[trigger] v[j])
}

/// A strictly sorted list stays so when a text behind its last is added.
pub proof fn lemma_sorted_push(v: Seq<Seq<char>>, x: Seq<char>)
    requires
        strictly_sorted(v),
        v.len() > 0 ==> text_lt(v.last(), x),
    ensures
        strictly_sorted(v.push(x)),
{
    let w = v.push(x);
    assert forall|i: int, j: int| 0 <= i < j < w.len() implies text_lt(
        #[trigger] w[i],
        #[trigger] w[j],
    ) by {
        if j < v.len() {
            assert(w[i] == v[i] && w[j] == v[j]);
        } else if i < v.len() - 1 {
            assert(text_lt(v[i], v[v.len() - 1]));
            lemma_lt_transitive(v[i], v.last(), x);
        }
    }
}

/// Two strictly sorted lists that hold the same texts are the same list.
pub proof fn lemma_sorted_unique(a: Seq<Seq<char>>, b: Seq<Seq<char>>)
    requires
        strictly_sorted(a),
        strictly_sorted(b),
        forall|x: Seq<char>| a.contains(x) <==> b.contains(x),
    ensures
        a == b,
    decreases a.len(),
{
    if a.len() == 0 {
        if b.len() > 0 {
            assert(b.contains(b[0]));
        }
        assert(a =~= b);
    } else if b.len() == 0 {
        assert(a.contains(a[0]));
    } else {
        // The last texts are the largest of either list: they are the same.
        let x = a.last();
        let y = b.last();
        assert(a.contains(x));
        assert(b.contains(y));
        let i = choose|i: int| 0 <= i < b.len() && b[i] == x;
        let j = choose|j: int| 0 <= j < a.len() && a[j] == y;
        if x != y {
            if i < b.len() - 1 {
                assert(text_lt(b[i], b[b.len() - 1]));
            }
            if j < a.len() - 1 {
                assert(text_lt(a[j], a[a.len() - 1]));
            }
            lemma_lt_transitive(x, y, x);
            lemma_lt_irreflexive(x);
        }
        let a1 = a.drop_last();
        let b1 = b.drop_last();
        assert forall|z: Seq<char>| a1.contains(z) <==> b1.contains(z) by {
            if a1.contains(z) {
                let k = choose|k: int| 0 <= k < a1.len() && a1[k] == z;
                assert(a[k] == z);
                assert(text_lt(a[k], a[a.len() - 1]));
                assert(a.contains(z));
                let m = choose|m: int| 0 <= m < b.len() && b[m] == z;
                if m == b.len() - 1 {
                    lemma_lt_irreflexive(z);
                }
                assert(b1[m] == z);
            }
            if b1.contains(z) {
                let k = choose|k: int| 0 <= k < b1.len() && b1[k] == z;
                assert(b[k] == z);
                assert(text_lt(b[k], b[b.len() - 1]));
                assert(b.contains(z));
                let m = choose|m: int| 0 <= m < a.len() && a[m] == z;
                if m == a.len() - 1 {
                    lemma_lt_irreflexive(z);
                }
                assert(a1[m] == z);
            }
        }
        assert(strictly_sorted(a1)) by {
            assert forall|p: int, q: int| 0 <= p < q < a1.len() implies text_lt(
                #[trigger] a1[p],
                #[trigger] a1[q],
            ) by {
                assert(a1[p] == a[p] && a1[q] == a[q]);
            }
        }
        assert(strictly_sorted(b1)) by {
            assert forall|p: int, q: int| 0 <= p < q < b1.len() implies text_lt(
                #[trigger] b1[p],
                #[trigger] b1[q],
            ) by {
                assert(b1[p] == b[p] && b1[q] == b[q]);
            }
        }
        lemma_sorted_unique(a1, b1);
        assert(a =~= a1.push(x));
        assert(b =~= b1.push(y));
    }
}

/// Merges two strictly sorted lists into one: every text of either, once.
fn merge(a: &Vec<String>, b: &Vec<String>) -> (out: Vec<String>)
    requires
        strictly_sorted(a.deep_view()),
        strictly_sorted(b.deep_view()),
    ensures
        strictly_sorted(out.deep_view()),
        forall|x: Seq<char>|
            out.deep_view().contains(x) <==> a.deep_view().contains(x) || b.deep_view().contains(x),
{
    let mut out: Vec<String> = Vec::new();
    let mut i: usize = 0;
    let mut j: usize = 0;
    let ghost av = a.deep_view();
    let ghost bv = b.deep_view();
    while i < a.len() || j < b.len()
        invariant
            i <= a.len(),
            j <= b.len(),
            av == a.deep_view(),
            bv == b.deep_view(),
            strictly_sorted(av),
            strictly_sorted(bv),
            strictly_sorted(out.deep_view()),
            out.len() > 0 && i < a.len() ==> text_lt(out.deep_view().last(), av[i as int]),
            out.len() > 0 && j < b.len() ==> text_lt(out.deep_view().last(), bv[j as int]),
            forall|x: Seq<char>|
                out.deep_view().contains(x) <==> av.take(i as int).contains(x) || bv.take(
                    j as int,
                ).contains(x),
        decreases a.len() - i + b.len() - j,
    {
        let ghost before = out.deep_view();
        let ghost i0 = i as int;
        let ghost j0 = j as int;
        let take_a: bool;
        let take_b: bool;
        if i == a.len() {
            take_a = false;
            take_b = true;
        } else if j == b.len() {
            take_a = true;
            take_b = false;
        } else {
            match rank(a[i].as_str(), b[j].as_str()) {
                Rank::Before => {
                    take_a = true;
                    take_b = false;
                },
                Rank::Same => {
                    take_a = true;
                    take_b = true;
                },
                Rank::After => {
                    take_a = false;
                    take_b = true;
                },
            }
        }
        let item = if take_a {
            a[i].clone()
        } else {
            b[j].clone()
        };
        proof {
            if i0 < av.len() {
                assert(av[i0] == a@[i0]@);
            }
            if j0 < bv.len() {
                assert(bv[j0] == b@[j0]@);
            }
            lemma_sorted_push(before, item@);
        }
        out.push(item);
        if take_a {
            i = i + 1;
        }
        if take_b {
            j = j + 1;
        }
        proof {
            let x0 = out.deep_view().last();
            assert(out.deep_view() =~= before.push(x0));
            assert(av.take(i as int) =~= if take_a {
                av.take(i0).push(av[i0])
            } else {
                av.take(i0)
            });
            assert(bv.take(j as int) =~= if take_b {
                bv.take(j0).push(bv[j0])
            } else {
                bv.take(j0)
            });
            assert forall|x: Seq<char>|
                out.deep_view().contains(x) <==> av.take(i as int).contains(x) || bv.take(
                    j as int,
                ).contains(x) by {
                if out.deep_view().contains(x) {
                    let k = choose|k: int| 0 <= k < out.deep_view().len() && out.deep_view()[k] == x;
                    if k < before.len() {
                        assert(before[k] == x);
                        assert(before.contains(x));
                        if av.take(i0).contains(x) {
                            let m = choose|m: int| 0 <= m < av.take(i0).len() && av.take(i0)[m] == x;
                            assert(av.take(i as int)[m] == x);
                        } else {
                            let m = choose|m: int| 0 <= m < bv.take(j0).len() && bv.take(j0)[m] == x;
                            assert(bv.take(j as int)[m] == x);
                        }
                    } else {
                        if take_a {
                            assert(av.take(i as int)[i0] == x);
                        } else {
                            assert(bv.take(j as int)[j0] == x);
                        }
                    }
                }
                if av.take(i as int).contains(x) {
                    let m = choose|m: int| 0 <= m < av.take(i as int).len() && av.take(i as int)[m] == x;
                    if m < i0 {
                        assert(av.take(i0)[m] == x);
                        assert(before.contains(x));
                        let k = choose|k: int| 0 <= k < before.len() && before[k] == x;
                        assert(out.deep_view()[k] == x);
                    } else {
                        assert(out.deep_view()[before.len() as int] == x);
                    }
                }
                if bv.take(j as int).contains(x) {
                    let m = choose|m: int| 0 <= m < bv.take(j as int).len() && bv.take(j as int)[m] == x;
                    if m < j0 {
                        assert(bv.take(j0)[m] == x);
                        assert(before.contains(x));
                        let k = choose|k: int| 0 <= k < before.len() && before[k] == x;
                        assert(out.deep_view()[k] == x);
                    } else {
                        assert(out.deep_view()[before.len() as int] == x);
                    }
                }
            }
        }
    }
    proof {
        assert(av.take(i as int) =~= av);
        assert(bv.take(j as int) =~= bv);
    }
    out
}

/// The texts of `v[lo..hi]`, sorted and without duplicates.
fn sorted_range(v: &Vec<String>, lo: usize, hi: usize) -> (out: Vec<String>)
    requires
        lo <= hi <= v.len(),
    ensures
        strictly_sorted(out.deep_view()),
        forall|x: Seq<char>|
            out.deep_view().contains(x) <==> v.deep_view().subrange(lo as int, hi as int).contains(
                x,
            ),
    decreases hi - lo,
{
    let ghost part = v.deep_view().subrange(lo as int, hi as int);
    if hi - lo == 0 {
        let out: Vec<String> = Vec::new();
        proof {
            assert(out.deep_view() =~= Seq::<Seq<char>>::empty());
        }
        out
    } else if hi - lo == 1 {
        let mut out: Vec<String> = Vec::new();
        out.push(v[lo].clone());
        proof {
            assert(out.deep_view() =~= seq![v@[lo as int]@]);
            assert(part =~= seq![v@[lo as int]@]);
        }
        out
    } else {
        let mid: usize = lo + (hi - lo) / 2;
        let left = sorted_range(v, lo, mid);
        let right = sorted_range(v, mid, hi);
        let out = merge(&left, &right);
        proof {
            let l = v.deep_view().subrange(lo as int, mid as int);
            let r = v.deep_view().subrange(mid as int, hi as int);
            assert(part =~= l + r);
            assert forall|x: Seq<char>| part.contains(x) <==> l.contains(x) || r.contains(x) by {
                if part.contains(x) {
                    let k = choose|k: int| 0 <= k < part.len() && part[k] == x;
                    if k < l.len() {
                        assert(l[k] == x);
                    } else {
                        assert(r[k - l.len()] == x);
                    }
                }
                if l.contains(x) {
                    let k = choose|k: int| 0 <= k < l.len() && l[k] == x;
                    assert(part[k] == x);
                }
                if r.contains(x) {
                    let k = choose|k: int| 0 <= k < r.len() && r[k] == x;
                    assert(part[k + l.len()] == x);
                }
            }
        }
        out
    }
}

/// The texts of `items`, each once, in rising order.
pub fn sorted_distinct(items: &Vec<String>) -> (out: Vec<String>)
    ensures
        strictly_sorted(out.deep_view()),
        forall|x: Seq<char>| out.deep_view().contains(x) <==> items.deep_view().contains(x),
{
    proof {
        assert(items.deep_view().subrange(0, items.len() as int) =~= items.deep_view());
    }
    sorted_range(items, 0, items.len())
}

} // verus!
