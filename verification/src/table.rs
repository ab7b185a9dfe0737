//! Keyed storage: a table holds records, each under a key of its own, and at
//! most one record under any key.

use vstd::prelude::*;

verus! {

/// A record that a [`Table`] can hold: it carries its key.
pub trait Record: View + Sized {
    /// The type of the key.
    type Key;

    /// The key under which the record is stored.
    spec fn key(&self) -> Self::Key;

    /// Whether the record is stored under `key`.
    fn has_key(&self, key: &Self::Key) -> (r: bool)
        ensures
            r == (self.key() == *key),
    ;

    /// Whether the record is stored under the key of `other`.
    fn same_key(&self, other: &Self) -> (r: bool)
        ensures
            r == (self.key() == other.key()),
    ;
}

/// Whether no two records of the sequence share a key.
pub open spec fn distinct_keys<R: Record>(rows: Seq<R>) -> bool {
    forall|i: int, j: int|
        0 <= i < rows.len() && 0 <= j < rows.len() && i != j ==> #[trigger] rows[i].key()
            != #[trigger] rows[j].key()
}

/// Whether `i` is a place in `rows` that holds a record under `key`.
pub open spec fn holds_key<R: Record>(rows: Seq<R>, key: R::Key, i: int) -> bool {
    0 <= i < rows.len() && rows[i].key() == key
}

/// The place in `rows` of a record under `key`, if there is one.
pub open spec fn place_of<R: Record>(rows: Seq<R>, key: R::Key) -> Option<int> {
    if exists|i: int| holds_key(rows, key, i) {
        Some(choose|i: int| holds_key(rows, key, i))
    } else {
        None
    }
}

/// The mapping from keys to the views of the records stored under them.
pub open spec fn mapping<R: Record>(rows: Seq<R>) -> Map<R::Key, R::V> {
    Map::new(
        |key: R::Key| place_of(rows, key) is Some,
        |key: R::Key| rows[place_of(rows, key)->Some_0]@,
    )
}

/// In a sequence without repeated keys, a place that holds `key` is the
/// place of `key`.
pub proof fn lemma_place_of<R: Record>(rows: Seq<R>, key: R::Key, i: int)
    requires
        distinct_keys(rows),
        holds_key(rows, key, i),
    ensures
        place_of(rows, key) == Some(i),
{
    let j = choose|j: int| holds_key(rows, key, j);
    assert(holds_key(rows, key, j));
    if i != j {
        assert(rows[i].key() != rows[j].key());
    }
}

/// Replacing a record by one with the same key stores the new record's view
/// under that key and leaves every other key as it was.
pub proof fn lemma_mapping_update<R: Record>(rows: Seq<R>, i: int, row: R)
    requires
        distinct_keys(rows),
        0 <= i < rows.len(),
        row.key() == rows[i].key(),
    ensures
        distinct_keys(rows.update(i, row)),
        mapping(rows.update(i, row)) == mapping(rows).insert(row.key(), row@),
{
    let next = rows.update(i, row);
    assert(distinct_keys(next)) by {
        assert forall|a: int, b: int|
            0 <= a < next.len() && 0 <= b < next.len() && a != b implies #[trigger] next[a].key()
            != #[trigger] next[b].key() by {
            assert(rows[a].key() != rows[b].key());
        }
    }
    assert forall|key: R::Key| place_of(next, key) == place_of(rows, key) by {
        if exists|j: int| holds_key(rows, key, j) {
            let j = choose|j: int| holds_key(rows, key, j);
            assert(holds_key(next, key, j));
            lemma_place_of(next, key, j);
        } else {
            if exists|j: int| holds_key(next, key, j) {
                let j = choose|j: int| holds_key(next, key, j);
                assert(holds_key(rows, key, j));
            }
        }
    }
    assert(holds_key(rows, row.key(), i));
    lemma_place_of(rows, row.key(), i);
    assert(mapping(next) =~= mapping(rows).insert(row.key(), row@));
}

/// Appending a record under a key that is not stored yet stores its view
/// under that key and leaves every other key as it was.
pub proof fn lemma_mapping_push<R: Record>(rows: Seq<R>, row: R)
    requires
        distinct_keys(rows),
        place_of(rows, row.key()) is None,
    ensures
        distinct_keys(rows.push(row)),
        mapping(rows.push(row)) == mapping(rows).insert(row.key(), row@),
{
    let next = rows.push(row);
    let n = rows.len() as int;
    assert(distinct_keys(next)) by {
        assert forall|a: int, b: int|
            0 <= a < next.len() && 0 <= b < next.len() && a != b implies #[trigger] next[a].key()
            != #[trigger] next[b].key() by {
            if a < n && b < n {
                assert(rows[a].key() != rows[b].key());
            } else if a < n {
                assert(!holds_key(rows, row.key(), a));
            } else {
                assert(!holds_key(rows, row.key(), b));
            }
        }
    }
    assert(holds_key(next, row.key(), n));
    lemma_place_of(next, row.key(), n);
    assert forall|key: R::Key| key != row.key() implies place_of(next, key) == place_of(
        rows,
        key,
    ) by {
        if exists|j: int| holds_key(rows, key, j) {
            let j = choose|j: int| holds_key(rows, key, j);
            assert(holds_key(next, key, j));
            lemma_place_of(next, key, j);
        } else {
            if exists|j: int| holds_key(next, key, j) {
                let j = choose|j: int| holds_key(next, key, j);
                assert(holds_key(rows, key, j));
            }
        }
    }
    assert(mapping(next) =~= mapping(rows).insert(row.key(), row@));
}

/// Taking out the record at a place removes its key and leaves every other
/// key as it was.
pub proof fn lemma_mapping_remove<R: Record>(rows: Seq<R>, i: int)
    requires
        distinct_keys(rows),
        0 <= i < rows.len(),
    ensures
        distinct_keys(rows.remove(i)),
        mapping(rows.remove(i)) == mapping(rows).remove(rows[i].key()),
{
    let next = rows.remove(i);
    let gone = rows[i].key();
    assert(distinct_keys(next)) by {
        assert forall|a: int, b: int|
            0 <= a < next.len() && 0 <= b < next.len() && a != b implies #[trigger] next[a].key()
            != #[trigger] next[b].key() by {
            let a0 = if a < i { a } else { a + 1 };
            let b0 = if b < i { b } else { b + 1 };
            assert(rows[a0].key() != rows[b0].key());
        }
    }
    assert(place_of(next, gone) is None) by {
        if exists|j: int| holds_key(next, gone, j) {
            let j = choose|j: int| holds_key(next, gone, j);
            let j0 = if j < i { j } else { j + 1 };
            assert(rows[j0].key() != rows[i].key());
        }
    }
    assert forall|key: R::Key| key != gone implies (place_of(next, key) is Some) == (place_of(
        rows,
        key,
    ) is Some) && (place_of(rows, key) is Some ==> next[place_of(next, key)->Some_0]
        == rows[place_of(rows, key)->Some_0]) by {
        if exists|j: int| holds_key(rows, key, j) {
            let j = choose|j: int| holds_key(rows, key, j);
            let j1 = if j < i { j } else { j - 1 };
            assert(holds_key(next, key, j1));
            lemma_place_of(next, key, j1);
        } else {
            if exists|j: int| holds_key(next, key, j) {
                let j = choose|j: int| holds_key(next, key, j);
                let j0 = if j < i { j } else { j + 1 };
                assert(holds_key(rows, key, j0));
            }
        }
    }
    assert(mapping(next) =~= mapping(rows).remove(gone));
}

/// A table of records, at most one under any key.
pub struct Table<R: Record> {
    rows: Vec<R>,
}

impl<R: Record> View for Table<R> {
    type V = Map<R::Key, R::V>;

    open spec fn view(&self) -> Map<R::Key, R::V> {
        mapping(self.rows())
    }
}

impl<R: Record> Table<R> {
    /// The records in the order in which their keys were first stored.
    pub closed spec fn rows(&self) -> Seq<R> {
        self.rows@
    }

    /// The invariant of the table: no two records share a key.
    pub open spec fn wf(&self) -> bool {
        distinct_keys(self.rows())
    }

    /// A table without records.
    pub fn new() -> (t: Self)
        ensures
            t.wf(),
            t.rows() == Seq::<R>::empty(),
            t@ == Map::<R::Key, R::V>::empty(),
    {
        let t = Table { rows: Vec::new() };
        assert(t@ =~= Map::<R::Key, R::V>::empty());
        t
    }

    /// The table that holds `rows`, or `None` when two of them share a key.
    pub fn from_rows(rows: Vec<R>) -> (r: Option<Self>)
        ensures
            match r {
                Some(t) => t.wf() && t.rows() == rows@,
                None => !distinct_keys(rows@),
            },
    {
        let mut i: usize = 0;
        while i < rows.len()
            invariant
                i <= rows.len(),
                forall|a: int, b: int|
                    0 <= a < i && 0 <= b < a ==> #[trigger] rows@[a].key()
                        != #[trigger] rows@[b].key(),
            decreases rows.len() - i,
        {
            let mut j: usize = 0;
            while j < i
                invariant
                    j <= i,
                    i < rows.len(),
                    forall|b: int|
                        0 <= b < j ==> rows@[i as int].key() != #[trigger] rows@[b].key(),
                decreases i - j,
            {
                if rows[i].same_key(&rows[j]) {
                    assert(rows@[i as int].key() == rows@[j as int].key());
                    return None;
                }
                j += 1;
            }
            i += 1;
        }
        assert(distinct_keys(rows@)) by {
            assert forall|a: int, b: int|
                0 <= a < rows@.len() && 0 <= b < rows@.len() && a != b implies
                #[trigger] rows@[a].key() != #[trigger] rows@[b].key() by {
                if b < a {
                } else {
                    assert(rows@[b].key() != rows@[a].key());
                }
            }
        }
        Some(Table { rows })
    }

    /// The records, in the order in which their keys were first stored.
    pub fn into_rows(self) -> (rows: Vec<R>)
        ensures
            rows@ == self.rows(),
    {
        self.rows
    }

    /// The number of records.
    pub fn len(&self) -> (n: usize)
        ensures
            n == self.rows().len(),
    {
        self.rows.len()
    }

    /// The place of the record under `key`, if there is one.
    pub fn find(&self, key: &R::Key) -> (r: Option<usize>)
        requires
            self.wf(),
        ensures
            match r {
                Some(i) => place_of(self.rows(), *key) == Some(i as int) && i < self.rows().len()
                    && self.rows()[i as int].key() == *key,
                None => place_of(self.rows(), *key) is None,
            },
            r is Some <==> self@.contains_key(*key),
    {
        let mut i: usize = 0;
        while i < self.rows.len()
            invariant
                i <= self.rows.len(),
                distinct_keys(self.rows@),
                forall|j: int| 0 <= j < i ==> !holds_key(self.rows@, *key, j),
            decreases self.rows.len() - i,
        {
            if self.rows[i].has_key(key) {
                proof {
                    assert(holds_key(self.rows@, *key, i as int));
                    lemma_place_of(self.rows@, *key, i as int);
                }
                return Some(i);
            }
            i += 1;
        }
        None
    }

    /// The record at a place.
    pub fn row(&self, i: usize) -> (r: &R)
        requires
            i < self.rows().len(),
        ensures
            *r == self.rows()[i as int],
    {
        &self.rows[i]
    }

    /// The record under `key`, if there is one.
    pub fn get(&self, key: &R::Key) -> (r: Option<&R>)
        requires
            self.wf(),
        ensures
            match r {
                Some(row) => self@.contains_key(*key) && self@[*key] == row@ && row.key() == *key
                    && place_of(self.rows(), *key) is Some && *row == self.rows()[place_of(
                    self.rows(),
                    *key,
                )->Some_0],
                None => !self@.contains_key(*key),
            },
    {
        match self.find(key) {
            Some(i) => Some(&self.rows[i]),
            None => None,
        }
    }

    /// Puts `row` in the place of a record with the same key.
    pub fn replace(&mut self, i: usize, row: R)
        requires
            old(self).wf(),
            i < old(self).rows().len(),
            row.key() == old(self).rows()[i as int].key(),
        ensures
            final(self).wf(),
            final(self).rows() == old(self).rows().update(i as int, row),
            final(self)@ == old(self)@.insert(row.key(), row@),
    {
        proof {
            lemma_mapping_update(self.rows@, i as int, row);
        }
        self.rows.set(i, row);
    }

    /// Stores `row` under a key that the table does not hold yet.
    pub fn append(&mut self, row: R)
        requires
            old(self).wf(),
            !old(self)@.contains_key(row.key()),
        ensures
            final(self).wf(),
            final(self).rows() == old(self).rows().push(row),
            final(self)@ == old(self)@.insert(row.key(), row@),
    {
        proof {
            lemma_mapping_push(self.rows@, row);
        }
        self.rows.push(row);
    }

    /// Takes out the record at a place.
    pub fn take(&mut self, i: usize) -> (row: R)
        requires
            old(self).wf(),
            i < old(self).rows().len(),
        ensures
            final(self).wf(),
            row == old(self).rows()[i as int],
            final(self).rows() == old(self).rows().remove(i as int),
            final(self)@ == old(self)@.remove(row.key()),
    {
        proof {
            lemma_mapping_remove(self.rows@, i as int);
        }
        self.rows.remove(i)
    }
}

impl<R: Record + Copy> Table<R> {
    /// A second table with the same records in the same order.
    pub fn duplicate(&self) -> (t: Table<R>)
        ensures
            t.rows() == self.rows(),
    {
        let mut rows: Vec<R> = Vec::new();
        let mut i: usize = 0;
        while i < self.rows.len()
            invariant
                i <= self.rows.len(),
                rows@ == self.rows@.take(i as int),
            decreases self.rows.len() - i,
        {
            rows.push(self.rows[i]);
            assert(rows@ =~= self.rows@.take(i as int + 1));
            i += 1;
        }
        assert(rows@ =~= self.rows@);
        Table { rows }
    }
}

} // verus!
