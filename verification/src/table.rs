//! A table of values by name.

use crate::text;
use vstd::prelude::*;

verus! {

/// The map that rows of names and values stand for.
pub open spec fn map_of<T>(rows: Seq<(Seq<char>, T)>) -> Map<Seq<char>, T>
    decreases rows.len(),
{
    if rows.len() == 0 {
        Map::empty()
    } else {
        map_of(rows.drop_last()).insert(rows.last().0, rows.last().1)
    }
}

/// No two rows have one name.
pub open spec fn distinct<T>(rows: Seq<(Seq<char>, T)>) -> bool {
    forall|i: int, j: int| 0 <= i < j < rows.len() ==> #[trigger] rows[i].0 != #[trigger] rows[j].0
}

pub proof fn lemma_map_of<T>(rows: Seq<(Seq<char>, T)>)
    requires
        distinct(rows),
    ensures
        forall|i: int|
            0 <= i < rows.len() ==> map_of(rows).contains_key(#[trigger] rows[i].0) && map_of(
                rows,
            )[rows[i].0] == rows[i].1,
        forall|k: Seq<char>| #[trigger]
            map_of(rows).contains_key(k) ==> exists|i: int|
                0 <= i < rows.len() && #[trigger] rows[i].0 == k,
        map_of(rows).dom().finite(),
        map_of(rows).len() == rows.len(),
    decreases rows.len(),
{
    if rows.len() > 0 {
        let rest = rows.drop_last();
        assert forall|i: int, j: int| 0 <= i < j < rest.len() implies #[trigger] rest[i].0
            != #[trigger] rest[j].0 by {
            assert(rest[i] == rows[i] && rest[j] == rows[j]);
        }
        lemma_map_of(rest);
        assert forall|i: int| 0 <= i < rows.len() implies map_of(rows).contains_key(
            #[trigger] rows[i].0,
        ) && map_of(rows)[rows[i].0] == rows[i].1 by {
            if i < rest.len() {
                assert(rest[i] == rows[i]);
                assert(rows[i].0 != rows[rows.len() - 1].0);
            }
        }
        assert forall|k: Seq<char>| #[trigger] map_of(rows).contains_key(k) implies exists|i: int|
            0 <= i < rows.len() && #[trigger] rows[i].0 == k by {
            if k == rows.last().0 {
                assert(rows[rows.len() - 1].0 == k);
            } else {
                assert(map_of(rest).contains_key(k));
                let i = choose|i: int| 0 <= i < rest.len() && #[trigger] rest[i].0 == k;
                assert(rows[i].0 == k);
            }
        }
        assert(!map_of(rest).contains_key(rows.last().0)) by {
            if map_of(rest).contains_key(rows.last().0) {
                let i = choose|i: int| 0 <= i < rest.len() && #[trigger] rest[i].0 == rows.last().0;
                assert(rows[i].0 == rows[rows.len() - 1].0);
            }
        }
    }
}

pub proof fn lemma_map_of_update<T>(rows: Seq<(Seq<char>, T)>, i: int, v: T)
    requires
        distinct(rows),
        0 <= i < rows.len(),
    ensures
        distinct(rows.update(i, (rows[i].0, v))),
        map_of(rows.update(i, (rows[i].0, v))) == map_of(rows).insert(rows[i].0, v),
    decreases rows.len(),
{
    let k = rows[i].0;
    let new = rows.update(i, (k, v));
    assert forall|a: int, b: int| 0 <= a < b < new.len() implies #[trigger] new[a].0
        != #[trigger] new[b].0 by {
        assert(new[a].0 == rows[a].0 && new[b].0 == rows[b].0);
    }
    let rest = rows.drop_last();
    if i == rows.len() - 1 {
        assert(new.drop_last() =~= rest);
        assert(map_of(new) =~= map_of(rows).insert(k, v));
    } else {
        assert forall|a: int, b: int| 0 <= a < b < rest.len() implies #[trigger] rest[a].0
            != #[trigger] rest[b].0 by {
            assert(rest[a] == rows[a] && rest[b] == rows[b]);
        }
        lemma_map_of_update(rest, i, v);
        assert(new.drop_last() =~= rest.update(i, (k, v)));
        assert(rows[i].0 != rows[rows.len() - 1].0);
        assert(map_of(new) =~= map_of(rows).insert(k, v));
    }
}

pub proof fn lemma_map_of_remove<T>(rows: Seq<(Seq<char>, T)>, i: int)
    requires
        distinct(rows),
        0 <= i < rows.len(),
    ensures
        distinct(rows.remove(i)),
        map_of(rows.remove(i)) == map_of(rows).remove(rows[i].0),
    decreases rows.len(),
{
    let k = rows[i].0;
    let new = rows.remove(i);
    assert forall|a: int, b: int| 0 <= a < b < new.len() implies #[trigger] new[a].0
        != #[trigger] new[b].0 by {
        let a2 = if a < i {
            a
        } else {
            a + 1
        };
        let b2 = if b < i {
            b
        } else {
            b + 1
        };
        assert(new[a] == rows[a2] && new[b] == rows[b2]);
    }
    let rest = rows.drop_last();
    assert forall|a: int, b: int| 0 <= a < b < rest.len() implies #[trigger] rest[a].0
        != #[trigger] rest[b].0 by {
        assert(rest[a] == rows[a] && rest[b] == rows[b]);
    }
    if i == rows.len() - 1 {
        assert(new =~= rest);
        lemma_map_of(rest);
        assert(!map_of(rest).contains_key(k)) by {
            if map_of(rest).contains_key(k) {
                let j = choose|j: int| 0 <= j < rest.len() && #[trigger] rest[j].0 == k;
                assert(rows[j].0 == rows[i].0);
            }
        }
        assert(map_of(new) =~= map_of(rows).remove(k));
    } else {
        lemma_map_of_remove(rest, i);
        assert(new.drop_last() =~= rest.remove(i));
        assert(new.last() == rows.last());
        assert(rows[i].0 != rows[rows.len() - 1].0);
        assert(map_of(new) =~= map_of(rows).remove(k));
    }
}

/// Changing every value of the rows changes every value of the map.
pub proof fn lemma_map_of_values<T>(rows: Seq<(Seq<char>, T)>, f: spec_fn(T) -> T)
    ensures
        map_of(rows.map_values(|r: (Seq<char>, T)| (r.0, f(r.1)))) == map_of(rows).map_values(f),
    decreases rows.len(),
{
    let g = |r: (Seq<char>, T)| (r.0, f(r.1));
    if rows.len() > 0 {
        lemma_map_of_values(rows.drop_last(), f);
        assert(rows.map_values(g).drop_last() =~= rows.drop_last().map_values(g));
        assert(map_of(rows.map_values(g)) =~= map_of(rows).map_values(f));
    } else {
        assert(map_of(rows.map_values(g)) =~= map_of(rows).map_values(f));
    }
}

/// A table of values by name, in the order in which the names came in.
pub struct Table<V> {
    rows: Vec<(String, V)>,
}

impl<V: View> View for Table<V> {
    type V = Map<Seq<char>, V::V>;

    closed spec fn view(&self) -> Map<Seq<char>, V::V> {
        map_of(self.row_views())
    }
}

impl<V: View> Table<V> {
    /// The rows in their order.
    pub closed spec fn row_views(&self) -> Seq<(Seq<char>, V::V)> {
        self.rows@.map_values(|r: (String, V)| (r.0@, r.1@))
    }

    /// Every name has one row.
    pub closed spec fn wf(&self) -> bool {
        distinct(self.row_views())
    }

    pub proof fn lemma_rows(&self)
        requires
            self.wf(),
        ensures
            distinct(self.row_views()),
            self@ == map_of(self.row_views()),
    {
    }

    pub fn new() -> (r: Self)
        ensures
            r.wf(),
            r@ == Map::<Seq<char>, V::V>::empty(),
    {
        let r = Table { rows: Vec::new() };
        assert(r.row_views() =~= Seq::<(Seq<char>, V::V)>::empty());
        r
    }

    pub fn len(&self) -> (r: usize)
        ensures
            r == self.row_views().len(),
    {
        self.rows.len()
    }

    /// The name and the value of a row.
    pub fn row(&self, i: usize) -> (r: (&String, &V))
        requires
            i < self.row_views().len(),
        ensures
            (r.0@, r.1@) == self.row_views()[i as int],
    {
        let row = &self.rows[i];
        (&row.0, &row.1)
    }

    /// The row of a name.
    pub fn position(&self, key: &str) -> (r: Option<usize>)
        requires
            self.wf(),
        ensures
            match r {
                Some(i) => i < self.row_views().len() && self.row_views()[i as int].0 == key@
                    && self@.contains_key(key@) && self@[key@] == self.row_views()[i as int].1,
                None => !self@.contains_key(key@),
            },
    {
        let ghost rows = self.row_views();
        proof {
            lemma_map_of(rows);
        }
        let mut i: usize = 0;
        while i < self.rows.len()
            invariant
                i <= self.rows.len(),
                rows == self.row_views(),
                rows.len() == self.rows.len(),
                forall|j: int| 0 <= j < i ==> (#[trigger] rows[j]).0 != key@,
                forall|j: int|
                    0 <= j < rows.len() ==> self@.contains_key(#[trigger] rows[j].0)
                        && self@[rows[j].0] == rows[j].1,
            decreases self.rows.len() - i,
        {
            assert(rows[i as int].0 == self.rows[i as int].0@);
            if text::same(self.rows[i].0.as_str(), key) {
                return Some(i);
            }
            i += 1;
        }
        None
    }

    pub fn get(&self, key: &str) -> (r: Option<&V>)
        requires
            self.wf(),
        ensures
            match r {
                Some(v) => self@.contains_key(key@) && self@[key@] == v@,
                None => !self@.contains_key(key@),
            },
    {
        match self.position(key) {
            Some(i) => {
                let row = &self.rows[i];
                Some(&row.1)
            },
            None => None,
        }
    }

    pub fn contains(&self, key: &str) -> (r: bool)
        requires
            self.wf(),
        ensures
            r == self@.contains_key(key@),
    {
        self.position(key).is_some()
    }

    /// Gives a name a value, in its row where it has one.
    pub fn insert(&mut self, key: String, value: V)
        requires
            old(self).wf(),
        ensures
            final(self).wf(),
            final(self)@ == old(self)@.insert(key@, value@),
    {
        let ghost rows = self.row_views();
        let at = self.position(key.as_str());
        match at {
            Some(i) => {
                let ghost k = key@;
                let ghost v = value@;
                self.rows.set(i, (key, value));
                proof {
                    lemma_map_of_update(rows, i as int, v);
                    assert(self.row_views() =~= rows.update(i as int, (k, v)));
                }
            },
            None => {
                let ghost k = key@;
                let ghost v = value@;
                proof {
                    lemma_map_of(rows);
                }
                self.rows.push((key, value));
                proof {
                    let new = self.row_views();
                    assert(new =~= rows.push((k, v)));
                    assert(new.drop_last() =~= rows);
                    assert forall|a: int, b: int| 0 <= a < b < new.len() implies #[trigger] new[a].0
                        != #[trigger] new[b].0 by {
                        assert(new[a] == rows[a]);
                        if b < rows.len() {
                            assert(new[b] == rows[b]);
                        }
                    }
                }
            },
        }
    }

    /// Gives a row another value.
    pub fn set_row(&mut self, i: usize, value: V)
        requires
            old(self).wf(),
            i < old(self).row_views().len(),
        ensures
            final(self).wf(),
            final(self).row_views() == old(self).row_views().update(
                i as int,
                (old(self).row_views()[i as int].0, value@),
            ),
            final(self)@ == old(self)@.insert(old(self).row_views()[i as int].0, value@),
    {
        let ghost rows = self.row_views();
        let key = self.rows[i].0.clone();
        let ghost v = value@;
        self.rows.set(i, (key, value));
        proof {
            lemma_map_of_update(rows, i as int, v);
            assert(self.row_views() =~= rows.update(i as int, (rows[i as int].0, v)));
        }
    }

    /// Takes a name out, with its value.
    pub fn remove(&mut self, key: &str) -> (r: Option<V>)
        requires
            old(self).wf(),
        ensures
            final(self).wf(),
            final(self)@ == old(self)@.remove(key@),
            match r {
                Some(v) => old(self)@.contains_key(key@) && old(self)@[key@] == v@,
                None => !old(self)@.contains_key(key@),
            },
    {
        let ghost rows = self.row_views();
        match self.position(key) {
            Some(i) => {
                let (_, v) = self.rows.remove(i);
                proof {
                    lemma_map_of_remove(rows, i as int);
                    assert(self.row_views() =~= rows.remove(i as int));
                }
                Some(v)
            },
            None => {
                assert(self@ =~= old(self)@.remove(key@));
                None
            },
        }
    }
}

} // verus!
