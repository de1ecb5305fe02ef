//! The order of texts, and sorting by it.

use crate::text;
use vstd::prelude::*;

verus! {

/// `a` comes before `b` in the order of their characters.
pub open spec fn before(a: Seq<char>, b: Seq<char>) -> bool
    decreases a.len(),
{
    if b.len() == 0 {
        false
    } else if a.len() == 0 {
        true
    } else if a[0] != b[0] {
        a[0] < b[0]
    } else {
        before(a.drop_first(), b.drop_first())
    }
}

/// Of two different texts exactly one comes before the other, and none before itself.
pub proof fn lemma_before_total(a: Seq<char>, b: Seq<char>)
    ensures
        !(before(a, b) && before(b, a)),
        a != b ==> before(a, b) || before(b, a),
        a == b ==> !before(a, b),
    decreases a.len(),
{
    if a.len() > 0 && b.len() > 0 && a[0] == b[0] {
        lemma_before_total(a.drop_first(), b.drop_first());
        if a.drop_first() == b.drop_first() {
            assert(a =~= seq![a[0]] + a.drop_first());
            assert(b =~= seq![b[0]] + b.drop_first());
        }
    } else if a.len() == 0 && b.len() == 0 {
        assert(a =~= b);
    }
}

pub proof fn lemma_before_transitive(a: Seq<char>, b: Seq<char>, c: Seq<char>)
    requires
        before(a, b),
        before(b, c),
    ensures
        before(a, c),
    decreases a.len(),
{
    if a.len() > 0 && a[0] == b[0] && b[0] == c[0] {
        lemma_before_transitive(a.drop_first(), b.drop_first(), c.drop_first());
    }
}

/// Whether `a` comes before `b`.
pub fn is_before(a: &str, b: &str) -> (r: bool)
    ensures
        r == before(a@, b@),
{
    let x = text::chars_of(a);
    let y = text::chars_of(b);
    let mut i: usize = 0;
    assert(a@.skip(0) =~= a@);
    assert(b@.skip(0) =~= b@);
    while i < x.len() && i < y.len()
        invariant
            i <= x.len(),
            i <= y.len(),
            x@ == a@,
            y@ == b@,
            before(a@, b@) == before(a@.skip(i as int), b@.skip(i as int)),
        decreases x.len() - i,
    {
        let ghost p = a@.skip(i as int);
        let ghost q = b@.skip(i as int);
        assert(p[0] == x[i as int]);
        assert(q[0] == y[i as int]);
        assert(p.drop_first() =~= a@.skip(i + 1));
        assert(q.drop_first() =~= b@.skip(i + 1));
        if x[i] != y[i] {
            return x[i] < y[i];
        }
        i += 1;
    }
    i < y.len()
}

/// Row `i` comes before row `j`: by its first key, then by its second, then as it stood.
pub open spec fn row_before(k1: Seq<Seq<char>>, k2: Seq<Seq<char>>, i: int, j: int) -> bool {
    if k1[i] != k1[j] {
        before(k1[i], k1[j])
    } else if k2[i] != k2[j] {
        before(k2[i], k2[j])
    } else {
        i < j
    }
}

/// `p` lists the rows by their keys, each once.
pub open spec fn sorted_by(p: Seq<int>, k1: Seq<Seq<char>>, k2: Seq<Seq<char>>) -> bool {
    &&& p.len() == k1.len()
    &&& p.no_duplicates()
    &&& forall|a: int| 0 <= a < p.len() ==> 0 <= #[trigger] p[a] < k1.len()
    &&& forall|a: int, b: int|
        0 <= a < b < p.len() ==> row_before(k1, k2, #[trigger] p[a], #[trigger] p[b])
}

proof fn lemma_row_transitive(k1: Seq<Seq<char>>, k2: Seq<Seq<char>>, i: int, j: int, k: int)
    requires
        row_before(k1, k2, i, j),
        row_before(k1, k2, j, k),
    ensures
        row_before(k1, k2, i, k),
{
    lemma_before_total(k1[i], k1[j]);
    lemma_before_total(k1[j], k1[k]);
    lemma_before_total(k1[i], k1[k]);
    lemma_before_total(k2[i], k2[j]);
    lemma_before_total(k2[j], k2[k]);
    if k1[i] != k1[j] && k1[j] != k1[k] {
        lemma_before_transitive(k1[i], k1[j], k1[k]);
    } else if k1[i] == k1[j] && k1[j] == k1[k] && k2[i] != k2[j] && k2[j] != k2[k] {
        lemma_before_transitive(k2[i], k2[j], k2[k]);
        lemma_before_total(k2[i], k2[k]);
    }
}

proof fn lemma_row_total(k1: Seq<Seq<char>>, k2: Seq<Seq<char>>, i: int, j: int)
    requires
        i != j,
    ensures
        row_before(k1, k2, i, j) != row_before(k1, k2, j, i),
{
    lemma_before_total(k1[i], k1[j]);
    lemma_before_total(k2[i], k2[j]);
}

pub open spec fn indices(v: Seq<usize>) -> Seq<int> {
    v.map_values(|i: usize| i as int)
}

/// Row `i` comes before row `j`, where `i` stands behind `j`.
fn comes_before(k1: &Vec<String>, k2: &Vec<String>, i: usize, j: usize) -> (r: bool)
    requires
        j < i < k1.len(),
        k1.len() == k2.len(),
    ensures
        r == row_before(text::views(k1@), text::views(k2@), i as int, j as int),
{
    if !text::same(k1[i].as_str(), k1[j].as_str()) {
        is_before(k1[i].as_str(), k1[j].as_str())
    } else if !text::same(k2[i].as_str(), k2[j].as_str()) {
        is_before(k2[i].as_str(), k2[j].as_str())
    } else {
        false
    }
}

/// Lists the rows by their keys: by the first, then by the second; rows with the same keys
/// stay in their order.
pub fn sort_rows(k1: &Vec<String>, k2: &Vec<String>) -> (r: Vec<usize>)
    requires
        k1.len() == k2.len(),
    ensures
        sorted_by(indices(r@), text::views(k1@), text::views(k2@)),
{
    let ghost a = text::views(k1@);
    let ghost b = text::views(k2@);
    let mut out: Vec<usize> = Vec::new();
    let mut i: usize = 0;
    while i < k1.len()
        invariant
            i <= k1.len(),
            k1.len() == k2.len(),
            a == text::views(k1@),
            b == text::views(k2@),
            out.len() == i,
            forall|x: int| 0 <= x < out.len() ==> (#[trigger] out@[x]) < i,
            forall|x: int, y: int|
                0 <= x < y < out.len() ==> row_before(
                    a,
                    b,
                    (#[trigger] out@[x]) as int,
                    (#[trigger] out@[y]) as int,
                ),
        decreases k1.len() - i,
    {
        let mut p: usize = out.len();
        while p > 0 && comes_before(k1, k2, i, out[p - 1])
            invariant
                p <= out.len(),
                i < k1.len(),
                k1.len() == k2.len(),
                a == text::views(k1@),
                b == text::views(k2@),
                forall|x: int| 0 <= x < out.len() ==> (#[trigger] out@[x]) < i,
                forall|y: int|
                    p <= y < out.len() ==> row_before(a, b, i as int, (#[trigger] out@[y]) as int),
            decreases p,
        {
            p -= 1;
        }
        let ghost old_out = out@;
        proof {
            assert forall|x: int| 0 <= x < p implies row_before(
                a,
                b,
                (#[trigger] old_out[x]) as int,
                i as int,
            ) by {
                lemma_row_total(a, b, old_out[p - 1] as int, i as int);
                if x < p - 1 {
                    lemma_row_transitive(
                        a,
                        b,
                        old_out[x] as int,
                        old_out[p - 1] as int,
                        i as int,
                    );
                }
            }
        }
        out.insert(p, i);
        proof {
            assert forall|x: int, y: int| 0 <= x < y < out.len() implies row_before(
                a,
                b,
                (#[trigger] out@[x]) as int,
                (#[trigger] out@[y]) as int,
            ) by {
                let x2 = if x < p {
                    x
                } else {
                    x - 1
                };
                let y2 = if y < p {
                    y
                } else {
                    y - 1
                };
                if x != p {
                    assert(out@[x] == old_out[x2]);
                }
                if y != p {
                    assert(out@[y] == old_out[y2]);
                }
            }
            assert forall|x: int| 0 <= x < out.len() implies (#[trigger] out@[x]) < i + 1 by {
                if x < p {
                    assert(out@[x] == old_out[x]);
                } else if x > p {
                    assert(out@[x] == old_out[x - 1]);
                }
            }
        }
        i += 1;
    }
    proof {
        let p = indices(out@);
        assert forall|x: int, y: int| 0 <= x < y < p.len() implies row_before(
            a,
            b,
            #[trigger] p[x],
            #[trigger] p[y],
        ) by {
            assert(row_before(a, b, out@[x] as int, out@[y] as int));
        }
        assert forall|x: int, y: int| 0 <= x < p.len() && 0 <= y < p.len() && x != y implies p[x]
            != p[y] by {
            if x < y {
                assert(row_before(a, b, p[x], p[y]));
                lemma_before_total(a[p[x]], a[p[x]]);
                lemma_before_total(b[p[x]], b[p[x]]);
            } else {
                assert(row_before(a, b, p[y], p[x]));
                lemma_before_total(a[p[x]], a[p[x]]);
                lemma_before_total(b[p[x]], b[p[x]]);
            }
        }
        assert forall|x: int| 0 <= x < p.len() implies 0 <= #[trigger] p[x] < a.len() by {
            assert(out@[x] < i);
        }
    }
    out
}

/// Texts are ordered by the first character in which they differ, and a text comes before every
/// longer one that begins with it.
pub proof fn law_order(c: Seq<char>, x: char, r: Seq<char>, y: char, s: Seq<char>)
    requires
        x < y,
    ensures
        before(c + seq![x] + r, c + seq![y] + s),
        !before(c + seq![y] + s, c + seq![x] + r),
        before(c, c + seq![x] + r),
        !before(c, c),
    decreases c.len(),
{
    let a = c + seq![x] + r;
    let b = c + seq![y] + s;
    if c.len() > 0 {
        let d = c.drop_first();
        assert(a.drop_first() =~= d + seq![x] + r);
        assert(b.drop_first() =~= d + seq![y] + s);
        assert(a[0] == c[0] && b[0] == c[0]);
        law_order(d, x, r, y, s);
    } else {
        assert(a[0] == x && b[0] == y);
    }
}

/// Sorted rows are in the order of their first keys, then of their second ones, and rows with
/// equal keys stay as they stood; each row is there once.
pub proof fn law_sorted(p: Seq<int>, k1: Seq<Seq<char>>, k2: Seq<Seq<char>>, a: int, b: int)
    requires
        sorted_by(p, k1, k2),
        0 <= a < b < p.len(),
    ensures
        p.len() == k1.len(),
        p[a] != p[b],
        !before(k1[p[b]], k1[p[a]]),
        k1[p[a]] == k1[p[b]] ==> !before(k2[p[b]], k2[p[a]]),
        k1[p[a]] == k1[p[b]] && k2[p[a]] == k2[p[b]] ==> p[a] < p[b],
{
    assert(row_before(k1, k2, p[a], p[b]));
    lemma_before_total(k1[p[a]], k1[p[b]]);
    lemma_before_total(k2[p[a]], k2[p[b]]);
}

} // verus!
