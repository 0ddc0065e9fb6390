//! A small keyed table: rows held in insertion order, one row per key, with a
//! map from key to value as its model.

use vstd::prelude::*;
use vstd::string::*;
use crate::text::str_eq;

verus! {

/// A table of rows keyed by string. Its view is the map from each key to the
/// view of the value stored under it.
#[derive(Debug)]
pub struct Table<V> {
    rows: Vec<(String, V)>,
}

/// No two rows share a key.
pub open spec fn keys_distinct<V>(rows: Seq<(String, V)>) -> bool {
    forall|i: int, j: int| 0 <= i < j < rows.len() ==> rows[i].0@ != rows[j].0@
}

/// Some row of `rows` is keyed by `key`.
pub open spec fn has_key<V>(rows: Seq<(String, V)>, key: Seq<char>) -> bool {
    exists|i: int| 0 <= i < rows.len() && #[trigger] rows[i].0@ == key
}

/// The index of a row keyed by `key`.
pub open spec fn row_of<V>(rows: Seq<(String, V)>, key: Seq<char>) -> int {
    choose|i: int| 0 <= i < rows.len() && #[trigger] rows[i].0@ == key
}

/// The map that a sequence of rows stands for.
pub open spec fn rows_map<V: View>(rows: Seq<(String, V)>) -> Map<Seq<char>, V::V> {
    Map::new(|k: Seq<char>| has_key(rows, k), |k: Seq<char>| rows[row_of(rows, k)].1@)
}

/// With distinct keys, the row at `i` is the one the map reports for its key.
pub proof fn lemma_row_lookup<V: View>(rows: Seq<(String, V)>, i: int)
    requires
        keys_distinct(rows),
        0 <= i < rows.len(),
    ensures
        has_key(rows, rows[i].0@),
        row_of(rows, rows[i].0@) == i,
        rows_map(rows).contains_key(rows[i].0@),
        rows_map(rows)[rows[i].0@] == rows[i].1@,
{
    let k = rows[i].0@;
    assert(has_key(rows, k));
    let j = row_of(rows, k);
    assert(0 <= j < rows.len() && rows[j].0@ == k);
    if j < i {
        assert(rows[j].0@ != rows[i].0@);
    } else if i < j {
        assert(rows[i].0@ != rows[j].0@);
    }
}

/// The index of the row keyed by `key`, if there is one.
fn position<V>(rows: &Vec<(String, V)>, key: &str) -> (r: Option<usize>)
    ensures
        match r {
            Some(i) => i < rows@.len() && rows@[i as int].0@ == key@,
            None => !has_key(rows@, key@),
        },
{
    let mut i: usize = 0;
    while i < rows.len()
        invariant
            i <= rows@.len(),
            forall|j: int| 0 <= j < i ==> rows@[j].0@ != key@,
        decreases rows@.len() - i,
    {
        if str_eq(rows[i].0.as_str(), key) {
            return Some(i);
        }
        i += 1;
    }
    None
}

impl<V: Clone> Clone for Table<V> {
    /// A table with the same keys in the same order, each with a clone of
    /// its value.
    fn clone(&self) -> (t: Self)
        ensures
            t.keys() == self.keys(),
    {
        proof {
            use_type_invariant(self);
        }
        let mut rows: Vec<(String, V)> = Vec::new();
        let mut i: usize = 0;
        while i < self.rows.len()
            invariant
                i <= self.rows@.len(),
                rows@.len() == i,
                keys_distinct(self.rows@),
                forall|j: int| 0 <= j < i ==> rows@[j].0@ == self.rows@[j].0@,
            decreases self.rows@.len() - i,
        {
            rows.push((self.rows[i].0.clone(), self.rows[i].1.clone()));
            i += 1;
        }
        assert(rows@.map_values(|r: (String, V)| r.0@) =~= self.rows@.map_values(
            |r: (String, V)| r.0@,
        ));
        Table { rows }
    }
}

impl<V: View> View for Table<V> {
    type V = Map<Seq<char>, V::V>;

    closed spec fn view(&self) -> Map<Seq<char>, V::V> {
        rows_map(self.rows@)
    }
}

impl<V> Table<V> {
    #[verifier::type_invariant]
    spec fn distinct(&self) -> bool {
        keys_distinct(self.rows@)
    }

    /// The keys, in the order of their rows.
    pub closed spec fn keys(&self) -> Seq<Seq<char>> {
        self.rows@.map_values(|r: (String, V)| r.0@)
    }
}

impl<V: View> Table<V> {
    /// An empty table.
    pub fn new() -> (t: Self)
        ensures
            t@ == Map::<Seq<char>, V::V>::empty(),
    {
        let t = Table { rows: Vec::new() };
        assert(t@ =~= Map::<Seq<char>, V::V>::empty());
        t
    }

    /// The rows, taken out of the table, which is left empty.
    fn take_rows(&mut self) -> (rows: Vec<(String, V)>)
        ensures
            rows@ == old(self).rows@,
            keys_distinct(rows@),
            final(self).rows@.len() == 0,
    {
        proof {
            use_type_invariant(&*self);
        }
        let mut rows: Vec<(String, V)> = Vec::new();
        core::mem::swap(&mut self.rows, &mut rows);
        rows
    }

    /// Whether a value is stored under `key`.
    pub fn contains_key(&self, key: &str) -> (r: bool)
        ensures
            r == self@.contains_key(key@),
    {
        position(&self.rows, key).is_some()
    }

    /// The value stored under `key`.
    pub fn get(&self, key: &str) -> (r: Option<&V>)
        ensures
            match r {
                Some(v) => self@.contains_key(key@) && self@[key@] == v@,
                None => !self@.contains_key(key@),
            },
    {
        proof {
            use_type_invariant(self);
        }
        match position(&self.rows, key) {
            Some(i) => {
                proof {
                    lemma_row_lookup(self.rows@, i as int);
                }
                Some(&self.rows[i].1)
            },
            None => None,
        }
    }

    /// Stores `val` under `key`, replacing what was there.
    pub fn insert(&mut self, key: String, val: V)
        ensures
            final(self)@ == old(self)@.insert(key@, val@),
    {
        let mut rows = self.take_rows();
        let ghost before = rows@;
        let ghost k = key@;
        let ghost v = val@;
        match position(&rows, key.as_str()) {
            Some(i) => {
                rows.set(i, (key, val));
                proof {
                let after = rows@;
                assert(keys_distinct(after));
                assert forall|q: Seq<char>| has_key(after, q) <==> has_key(before, q) by {
                    if has_key(after, q) {
                        let j = row_of(after, q);
                        assert(before[j].0@ == q);
                    }
                    if has_key(before, q) {
                        let j = row_of(before, q);
                        assert(after[j].0@ == q);
                    }
                }
                assert forall|q: Seq<char>| has_key(after, q) implies rows_map(after)[q]
                    == rows_map(before).insert(k, v)[q] by {
                    let j = row_of(after, q);
                    lemma_row_lookup(after, j);
                    if j != i as int {
                        lemma_row_lookup(before, j);
                    }
                }
                lemma_row_lookup(before, i as int);
                assert(rows_map(after) =~= rows_map(before).insert(k, v));
                }
            },
            None => {
                rows.push((key, val));
                proof {
                let after = rows@;
                let n = before.len() as int;
                assert(keys_distinct(after)) by {
                    assert forall|a: int, b: int| 0 <= a < b < after.len() implies after[a].0@
                        != after[b].0@ by {
                        if b == n {
                            assert(before[a].0@ == after[a].0@);
                        }
                    }
                }
                assert forall|q: Seq<char>| has_key(after, q) <==> (q == k || has_key(
                    before,
                    q,
                )) by {
                    if has_key(after, q) {
                        let j = row_of(after, q);
                        if j < n {
                            assert(before[j].0@ == q);
                        }
                    }
                    if has_key(before, q) {
                        let j = row_of(before, q);
                        assert(after[j].0@ == q);
                    }
                    if q == k {
                        assert(after[n].0@ == q);
                    }
                }
                assert forall|q: Seq<char>| has_key(after, q) implies rows_map(after)[q]
                    == rows_map(before).insert(k, v)[q] by {
                    let j = row_of(after, q);
                    lemma_row_lookup(after, j);
                    if j < n {
                        lemma_row_lookup(before, j);
                    }
                }
                assert(rows_map(after) =~= rows_map(before).insert(k, v));
                }
            },
        }
        self.rows = rows;
    }

    /// Removes what is stored under `key`, if anything.
    pub fn remove(&mut self, key: &str)
        ensures
            final(self)@ == old(self)@.remove(key@),
    {
        let mut rows = self.take_rows();
        let ghost before = rows@;
        let ghost k = key@;
        match position(&rows, key) {
            Some(i) => {
                let _ = rows.remove(i);
                proof {
                let after = rows@;
                assert(after == before.remove(i as int));
                assert(keys_distinct(after)) by {
                    assert forall|a: int, b: int| 0 <= a < b < after.len() implies after[a].0@
                        != after[b].0@ by {
                        let a0 = if a < i { a } else { a + 1 };
                        let b0 = if b < i { b } else { b + 1 };
                        assert(after[a] == before[a0]);
                        assert(after[b] == before[b0]);
                    }
                }
                assert forall|q: Seq<char>| has_key(after, q) <==> (q != k && has_key(
                    before,
                    q,
                )) by {
                    if has_key(after, q) {
                        let j = row_of(after, q);
                        let j0 = if j < i { j } else { j + 1 };
                        assert(after[j] == before[j0]);
                        assert(before[j0].0@ == q);
                        if q == k {
                            lemma_row_lookup(before, i as int);
                            lemma_row_lookup(before, j0);
                        }
                    }
                    if q != k && has_key(before, q) {
                        let j = row_of(before, q);
                        let j1 = if j < i { j } else { j - 1 };
                        assert(after[j1] == before[j]);
                        assert(after[j1].0@ == q);
                    }
                }
                assert forall|q: Seq<char>| has_key(after, q) implies rows_map(after)[q]
                    == rows_map(before)[q] by {
                    let j = row_of(after, q);
                    let j0 = if j < i { j } else { j + 1 };
                    assert(after[j] == before[j0]);
                    lemma_row_lookup(after, j);
                    lemma_row_lookup(before, j0);
                }
                assert(rows_map(after) =~= rows_map(before).remove(k));
                }
            },
            None => {
                assert(rows_map(before) =~= rows_map(before).remove(k));
            },
        }
        self.rows = rows;
    }
}

} // verus!
