//! Lists of names and texts, each name at most once.

use crate::text;
use vstd::prelude::*;

verus! {

pub open spec fn pair_views(v: Seq<(String, String)>) -> Seq<(Seq<char>, Seq<char>)> {
    v.map_values(|p: (String, String)| (p.0@, p.1@))
}

/// The list with a name set to a text: in its place, or at the end where it is new.
pub open spec fn with_pair(
    pairs: Seq<(Seq<char>, Seq<char>)>,
    name: Seq<char>,
    value: Seq<char>,
) -> Seq<(Seq<char>, Seq<char>)>
    decreases pairs.len(),
{
    if pairs.len() == 0 {
        seq![(name, value)]
    } else if pairs[0].0 == name {
        seq![(name, value)] + pairs.drop_first()
    } else {
        seq![pairs[0]] + with_pair(pairs.drop_first(), name, value)
    }
}

/// The list without a name.
pub open spec fn without(pairs: Seq<(Seq<char>, Seq<char>)>, name: Seq<char>) -> Seq<
    (Seq<char>, Seq<char>),
>
    decreases pairs.len(),
{
    if pairs.len() == 0 {
        Seq::empty()
    } else {
        let rest = without(pairs.drop_last(), name);
        if pairs.last().0 == name {
            rest
        } else {
            rest.push(pairs.last())
        }
    }
}

proof fn lemma_with_pair(
    pairs: Seq<(Seq<char>, Seq<char>)>,
    name: Seq<char>,
    value: Seq<char>,
    i: int,
)
    requires
        0 <= i <= pairs.len(),
        forall|j: int| 0 <= j < i ==> (#[trigger] pairs[j]).0 != name,
        i < pairs.len() ==> pairs[i].0 == name,
    ensures
        with_pair(pairs, name, value) == if i < pairs.len() {
            pairs.update(i, (name, value))
        } else {
            pairs.push((name, value))
        },
    decreases pairs.len(),
{
    if pairs.len() == 0 {
        assert(with_pair(pairs, name, value) =~= pairs.push((name, value)));
    } else if i == 0 {
        assert(with_pair(pairs, name, value) =~= pairs.update(0, (name, value)));
    } else {
        let rest = pairs.drop_first();
        assert(pairs[0].0 != name);
        assert forall|j: int| 0 <= j < i - 1 implies (#[trigger] rest[j]).0 != name by {
            assert(rest[j] == pairs[j + 1]);
        }
        lemma_with_pair(rest, name, value, i - 1);
        if i < pairs.len() {
            assert(with_pair(pairs, name, value) =~= pairs.update(i, (name, value)));
        } else {
            assert(with_pair(pairs, name, value) =~= pairs.push((name, value)));
        }
    }
}

/// Sets a name to a text.
pub fn set_pair(pairs: &mut Vec<(String, String)>, name: String, value: String)
    ensures
        pair_views(final(pairs)@) == with_pair(pair_views(old(pairs)@), name@, value@),
{
    let ghost all = pair_views(pairs@);
    let ghost n = name@;
    let ghost v = value@;
    let mut i: usize = 0;
    while i < pairs.len() && !text::same(pairs[i].0.as_str(), name.as_str())
        invariant
            i <= pairs.len(),
            all == pair_views(pairs@),
            n == name@,
            forall|j: int| 0 <= j < i ==> (#[trigger] all[j]).0 != n,
        decreases pairs.len() - i,
    {
        assert(all[i as int].0 == pairs[i as int].0@);
        i += 1;
    }
    proof {
        if i < all.len() {
            assert(all[i as int].0 == pairs[i as int].0@);
        }
        lemma_with_pair(all, n, v, i as int);
    }
    if i < pairs.len() {
        pairs.set(i, (name, value));
        assert(pair_views(pairs@) =~= all.update(i as int, (n, v)));
    } else {
        pairs.push((name, value));
        assert(pair_views(pairs@) =~= all.push((n, v)));
    }
}

/// A copy of the list without a name.
pub fn copy_without(pairs: &Vec<(String, String)>, name: &str) -> (r: Vec<(String, String)>)
    ensures
        pair_views(r@) == without(pair_views(pairs@), name@),
{
    let ghost all = pair_views(pairs@);
    let mut out: Vec<(String, String)> = Vec::new();
    let mut i: usize = 0;
    assert(all.take(0) =~= Seq::<(Seq<char>, Seq<char>)>::empty());
    assert(pair_views(out@) =~= Seq::<(Seq<char>, Seq<char>)>::empty());
    while i < pairs.len()
        invariant
            i <= pairs.len(),
            all == pair_views(pairs@),
            pair_views(out@) == without(all.take(i as int), name@),
        decreases pairs.len() - i,
    {
        let ghost before = pair_views(out@);
        assert(all.take(i + 1).drop_last() =~= all.take(i as int));
        assert(all.take(i + 1).last() == (pairs[i as int].0@, pairs[i as int].1@));
        let p = &pairs[i];
        if !text::same(p.0.as_str(), name) {
            out.push((p.0.clone(), p.1.clone()));
            assert(pair_views(out@) =~= before.push((p.0@, p.1@)));
        }
        i += 1;
    }
    assert(all.take(i as int) =~= all);
    out
}

/// A copy of the list.
pub fn copy_pairs(pairs: &Vec<(String, String)>) -> (r: Vec<(String, String)>)
    ensures
        pair_views(r@) == pair_views(pairs@),
{
    let ghost all = pair_views(pairs@);
    let mut out: Vec<(String, String)> = Vec::new();
    let mut i: usize = 0;
    assert(pair_views(out@) =~= all.take(0));
    while i < pairs.len()
        invariant
            i <= pairs.len(),
            all == pair_views(pairs@),
            pair_views(out@) == all.take(i as int),
        decreases pairs.len() - i,
    {
        let ghost before = pair_views(out@);
        let p = &pairs[i];
        out.push((p.0.clone(), p.1.clone()));
        assert(pair_views(out@) =~= before.push((p.0@, p.1@)));
        i += 1;
        assert(pair_views(out@) =~= all.take(i as int));
    }
    assert(pair_views(out@) =~= all);
    out
}

/// A name that was set has its text, and no other name changes.
pub proof fn law_set_pair(
    pairs: Seq<(Seq<char>, Seq<char>)>,
    name: Seq<char>,
    value: Seq<char>,
    other: (Seq<char>, Seq<char>),
)
    ensures
        with_pair(pairs, name, value).contains((name, value)),
        other.0 != name ==> (with_pair(pairs, name, value).contains(other) <==> pairs.contains(
            other,
        )),
    decreases pairs.len(),
{
    let all = with_pair(pairs, name, value);
    if pairs.len() == 0 {
        assert(all[0] == (name, value));
        if all.contains(other) {
            let i = choose|i: int| 0 <= i < all.len() && all[i] == other;
            assert(i == 0);
        }
    } else {
        let rest = pairs.drop_first();
        if pairs[0].0 == name {
            assert(all[0] == (name, value));
            if other.0 != name {
                if pairs.contains(other) {
                    let i = choose|i: int| 0 <= i < pairs.len() && pairs[i] == other;
                    assert(all[i] == other);
                }
                if all.contains(other) {
                    let i = choose|i: int| 0 <= i < all.len() && all[i] == other;
                    assert(pairs[i] == other);
                }
            }
        } else {
            law_set_pair(rest, name, value, other);
            let more = with_pair(rest, name, value);
            let i = choose|i: int| 0 <= i < more.len() && more[i] == (name, value);
            assert(all[i + 1] == (name, value));
            if other.0 != name {
                if pairs.contains(other) {
                    let k = choose|k: int| 0 <= k < pairs.len() && pairs[k] == other;
                    if k == 0 {
                        assert(all[0] == other);
                    } else {
                        assert(rest[k - 1] == other);
                        let m = choose|m: int| 0 <= m < more.len() && more[m] == other;
                        assert(all[m + 1] == other);
                    }
                }
                if all.contains(other) {
                    let k = choose|k: int| 0 <= k < all.len() && all[k] == other;
                    if k == 0 {
                        assert(pairs[0] == other);
                    } else {
                        assert(more[k - 1] == other);
                        let m = choose|m: int| 0 <= m < rest.len() && rest[m] == other;
                        assert(pairs[m + 1] == other);
                    }
                }
            }
        }
    }
}

/// A name that was taken out is gone, and no other name changes.
pub proof fn law_without(
    pairs: Seq<(Seq<char>, Seq<char>)>,
    name: Seq<char>,
    other: (Seq<char>, Seq<char>),
)
    ensures
        without(pairs, name).contains(other) <==> pairs.contains(other) && other.0 != name,
    decreases pairs.len(),
{
    if pairs.len() > 0 {
        let rest = pairs.drop_last();
        law_without(rest, name, other);
        let before = without(rest, name);
        let all = without(pairs, name);
        if pairs.contains(other) {
            let i = choose|i: int| 0 <= i < pairs.len() && pairs[i] == other;
            if i < rest.len() {
                assert(rest[i] == other);
            }
        }
        if rest.contains(other) {
            let i = choose|i: int| 0 <= i < rest.len() && rest[i] == other;
            assert(pairs[i] == other);
        }
        assert(pairs[pairs.len() - 1] == pairs.last());
        if pairs.last().0 != name {
            assert(all[before.len() as int] == pairs.last());
            if before.contains(other) {
                let i = choose|i: int| 0 <= i < before.len() && before[i] == other;
                assert(all[i] == other);
            }
            if all.contains(other) {
                let i = choose|i: int| 0 <= i < all.len() && all[i] == other;
                if i < before.len() {
                    assert(before[i] == other);
                }
            }
        }
    }
}

} // verus!
