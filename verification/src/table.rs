//! A table of text rows, each under a key of texts that no other row has.

use vstd::prelude::*;
use crate::text::same;

verus! {

/// One row: its key, and what is stored under it.
#[derive(Debug)]
pub struct Row {
    pub key: Vec<String>,
    pub value: Vec<String>,
}

/// Rows in the order in which they were added.
#[derive(Debug)]
pub struct Table {
    rows: Vec<Row>,
}

/// What a row means.
pub type RowView = (Seq<Seq<char>>, Seq<Seq<char>>);

/// A list of texts by their characters.
pub open spec fn chars_of(v: Seq<String>) -> Seq<Seq<char>> {
    v.map_values(|s: String| s@)
}

impl View for Row {
    type V = RowView;

    open spec fn view(&self) -> RowView {
        (chars_of(self.key@), chars_of(self.value@))
    }
}

impl View for Table {
    type V = Seq<RowView>;

    closed spec fn view(&self) -> Seq<RowView> {
        self.rows@.map_values(|r: Row| r@)
    }
}

/// Whether no two rows share a key.
pub open spec fn unique(rows: Seq<RowView>) -> bool {
    forall|i: int, j: int|
        0 <= i < j < rows.len() ==> (#[trigger] rows[i]).0 != (#[trigger] rows[j]).0
}

/// The place of the row under a key.
pub open spec fn place(rows: Seq<RowView>, key: Seq<Seq<char>>) -> Option<int>
    decreases rows.len(),
{
    if rows.len() == 0 {
        None
    } else if rows.last().0 == key {
        Some(rows.len() - 1)
    } else {
        place(rows.drop_last(), key)
    }
}

/// Whether there is a row under a key.
pub open spec fn has_row(rows: Seq<RowView>, key: Seq<Seq<char>>) -> bool {
    place(rows, key) is Some
}

/// What is stored under a key.
pub open spec fn value_at(rows: Seq<RowView>, key: Seq<Seq<char>>) -> Option<Seq<Seq<char>>> {
    match place(rows, key) {
        Some(i) => Some(rows[i].1),
        None => None,
    }
}

/// The rows with `value` under `key`: in the place of the row that was there, or last.
pub open spec fn updated(
    rows: Seq<RowView>,
    key: Seq<Seq<char>>,
    value: Seq<Seq<char>>,
) -> Seq<RowView> {
    match place(rows, key) {
        Some(i) => rows.update(i, (key, value)),
        None => rows.push((key, value)),
    }
}

/// The rows with `value` under `key`, unless there is a row already.
pub open spec fn extended(
    rows: Seq<RowView>,
    key: Seq<Seq<char>>,
    value: Seq<Seq<char>>,
) -> Seq<RowView> {
    if has_row(rows, key) {
        rows
    } else {
        rows.push((key, value))
    }
}

/// The rows without the one under `key`.
pub open spec fn without(rows: Seq<RowView>, key: Seq<Seq<char>>) -> Seq<RowView> {
    match place(rows, key) {
        Some(i) => rows.remove(i),
        None => rows,
    }
}

/// The place of a row is that of a row with its key.
pub proof fn lemma_place(rows: Seq<RowView>, key: Seq<Seq<char>>)
    ensures
        place(rows, key) matches Some(i) ==> 0 <= i < rows.len() && rows[i].0 == key,
        place(rows, key) is None ==> forall|i: int|
            0 <= i < rows.len() ==> (#[trigger] rows[i]).0 != key,
    decreases rows.len(),
{
    if rows.len() > 0 && rows.last().0 != key {
        lemma_place(rows.drop_last(), key);
        assert forall|i: int|
            place(rows, key) is None && 0 <= i < rows.len() implies (#[trigger] rows[i]).0 != key by {
            if i < rows.len() - 1 {
                assert(rows.drop_last()[i].0 != key);
            }
        }
    }
}

/// A key without a twin has the place of its row.
pub proof fn lemma_place_unique(rows: Seq<RowView>, i: int)
    requires
        unique(rows),
        0 <= i < rows.len(),
    ensures
        place(rows, rows[i].0) == Some(i),
{
    lemma_place(rows, rows[i].0);
    let p = place(rows, rows[i].0);
    match p {
        Some(j) => {
            if j < i {
                assert(rows[j].0 != rows[i].0);
            } else if i < j {
                assert(rows[i].0 != rows[j].0);
            }
        },
        None => {},
    }
}

/// A row is found where it was put, and nothing else changes.
pub proof fn lemma_updated(
    rows: Seq<RowView>,
    key: Seq<Seq<char>>,
    value: Seq<Seq<char>>,
    other: Seq<Seq<char>>,
)
    requires
        unique(rows),
    ensures
        unique(updated(rows, key, value)),
        value_at(updated(rows, key, value), key) == Some(value),
        other != key ==> value_at(updated(rows, key, value), other) == value_at(rows, other),
{
    lemma_place(rows, key);
    lemma_place(rows, other);
    let new = updated(rows, key, value);
    assert(unique(new)) by {
        assert forall|i: int, j: int| 0 <= i < j < new.len() implies (#[trigger] new[i]).0 != (
        #[trigger] new[j]).0 by {
            if j < rows.len() {
                assert(rows[i].0 != rows[j].0);
            } else {
                assert(rows[i].0 != key);
            }
        }
    }
    let i = match place(rows, key) {
        Some(i) => i,
        None => rows.len() as int,
    };
    assert(new[i] == (key, value));
    lemma_place_unique(new, i);
    if other != key {
        lemma_place(new, other);
        match place(rows, other) {
            Some(j) => {
                assert(new[j] == rows[j]);
                lemma_place_unique(new, j);
            },
            None => {
                match place(new, other) {
                    Some(j) => {
                        assert(new[j].0 == other);
                        if j < rows.len() && j != i {
                            assert(rows[j].0 == other);
                        }
                    },
                    None => {},
                }
            },
        }
    }
}

/// A row is added where there was none, and nothing else changes.
pub proof fn lemma_extended(
    rows: Seq<RowView>,
    key: Seq<Seq<char>>,
    value: Seq<Seq<char>>,
    other: Seq<Seq<char>>,
)
    requires
        unique(rows),
    ensures
        unique(extended(rows, key, value)),
        has_row(extended(rows, key, value), key),
        value_at(extended(rows, key, value), key) == match value_at(rows, key) {
            Some(v) => Some(v),
            None => Some(value),
        },
        other != key ==> value_at(extended(rows, key, value), other) == value_at(rows, other),
{
    if !has_row(rows, key) {
        lemma_updated(rows, key, value, other);
        lemma_place(updated(rows, key, value), key);
    }
}

/// A row is gone where it was taken out, and nothing else changes.
pub proof fn lemma_without(rows: Seq<RowView>, key: Seq<Seq<char>>, other: Seq<Seq<char>>)
    requires
        unique(rows),
    ensures
        unique(without(rows, key)),
        !has_row(without(rows, key), key),
        other != key ==> value_at(without(rows, key), other) == value_at(rows, other),
{
    lemma_place(rows, key);
    lemma_place(rows, other);
    let new = without(rows, key);
    lemma_place(new, key);
    lemma_place(new, other);
    match place(rows, key) {
        Some(p) => {
            assert forall|i: int, j: int| 0 <= i < j < new.len() implies (#[trigger] new[i]).0 != (
            #[trigger] new[j]).0 by {
                let a = if i < p {
                    i
                } else {
                    i + 1
                };
                let b = if j < p {
                    j
                } else {
                    j + 1
                };
                assert(rows[a].0 != rows[b].0);
            }
            match place(new, key) {
                Some(j) => {
                    let b = if j < p {
                        j
                    } else {
                        j + 1
                    };
                    assert(new[j] == rows[b]);
                    if b < p {
                        assert(rows[b].0 != rows[p].0);
                    } else {
                        assert(rows[p].0 != rows[b].0);
                    }
                },
                None => {},
            }
            if other != key {
                match place(rows, other) {
                    Some(j) => {
                        let b = if j < p {
                            j
                        } else {
                            j - 1
                        };
                        assert(new[b] == rows[j]);
                        lemma_place_unique(new, b);
                    },
                    None => {
                        match place(new, other) {
                            Some(j) => {
                                let b = if j < p {
                                    j
                                } else {
                                    j + 1
                                };
                                assert(new[j] == rows[b]);
                            },
                            None => {},
                        }
                    },
                }
            }
        },
        None => {},
    }
}

/// Whether two lists hold the same texts.
pub fn same_texts(a: &Vec<String>, b: &Vec<String>) -> (r: bool)
    ensures
        r == (chars_of(a@) == chars_of(b@)),
{
    if a.len() != b.len() {
        assert(chars_of(a@).len() != chars_of(b@).len());
        return false;
    }
    let mut i: usize = 0;
    while i < a.len()
        invariant
            i <= a@.len() == b@.len(),
            forall|j: int| 0 <= j < i ==> a@[j]@ == b@[j]@,
        decreases a@.len() - i,
    {
        if !same(a[i].as_str(), b[i].as_str()) {
            assert(chars_of(a@)[i as int] != chars_of(b@)[i as int]);
            return false;
        }
        i = i + 1;
    }
    assert(chars_of(a@) =~= chars_of(b@));
    true
}

/// The key of one text.
pub fn key1(a: &str) -> (r: Vec<String>)
    ensures
        chars_of(r@) == seq![a@],
{
    let mut v: Vec<String> = Vec::new();
    v.push(a.to_owned());
    assert(chars_of(v@) =~= seq![a@]);
    v
}

/// The key of two texts.
pub fn key2(a: &str, b: &str) -> (r: Vec<String>)
    ensures
        chars_of(r@) == seq![a@, b@],
{
    let mut v = key1(a);
    let ghost before = v@;
    v.push(b.to_owned());
    assert(chars_of(v@) =~= chars_of(before).push(b@));
    assert(chars_of(v@) =~= seq![a@, b@]);
    v
}

/// The key of three texts.
pub fn key3(a: &str, b: &str, c: &str) -> (r: Vec<String>)
    ensures
        chars_of(r@) == seq![a@, b@, c@],
{
    let mut v = key2(a, b);
    let ghost before = v@;
    v.push(c.to_owned());
    assert(chars_of(v@) =~= chars_of(before).push(c@));
    assert(chars_of(v@) =~= seq![a@, b@, c@]);
    v
}

/// The key of four texts.
pub fn key4(a: &str, b: &str, c: &str, d: &str) -> (r: Vec<String>)
    ensures
        chars_of(r@) == seq![a@, b@, c@, d@],
{
    let mut v = key3(a, b, c);
    let ghost before = v@;
    v.push(d.to_owned());
    assert(chars_of(v@) =~= chars_of(before).push(d@));
    assert(chars_of(v@) =~= seq![a@, b@, c@, d@]);
    v
}

impl Table {
    /// The table without rows.
    pub fn new() -> (r: Table)
        ensures
            r@ == Seq::<RowView>::empty(),
    {
        let r = Table { rows: Vec::new() };
        assert(r@ =~= Seq::<RowView>::empty());
        r
    }

    /// The number of rows.
    pub fn len(&self) -> (r: usize)
        ensures
            r == self@.len(),
    {
        self.rows.len()
    }

    /// The row at a place.
    pub fn row(&self, i: usize) -> (r: &Row)
        requires
            i < self@.len(),
        ensures
            r@ == self@[i as int],
    {
        &self.rows[i]
    }

    /// The place of the row under a key.
    fn find(&self, key: &Vec<String>) -> (r: Option<usize>)
        ensures
            r is Some <==> place(self@, chars_of(key@)) is Some,
            r matches Some(i) ==> place(self@, chars_of(key@)) == Some(i as int) && i < self@.len(),
    {
        let mut i: usize = self.rows.len();
        assert(self@.take(i as int) == self@);
        while i > 0
            invariant
                i <= self.rows@.len() == self@.len(),
                place(self@.take(i as int), chars_of(key@)) == place(self@, chars_of(key@)),
            decreases i,
        {
            let ghost rows = self@.take(i as int);
            i = i - 1;
            assert(rows.last() == self.rows@[i as int]@);
            assert(rows.drop_last() == self@.take(i as int));
            if same_texts(&self.rows[i].key, key) {
                return Some(i);
            }
        }
        None
    }

    /// What is stored under a key.
    pub fn get(&self, key: &Vec<String>) -> (r: Option<&Vec<String>>)
        ensures
            r is Some <==> value_at(self@, chars_of(key@)) is Some,
            r matches Some(v) ==> value_at(self@, chars_of(key@)) == Some(chars_of(v@)),
    {
        match self.find(key) {
            Some(i) => Some(&self.rows[i].value),
            None => None,
        }
    }

    /// Stores `value` under `key`: in the place of the row that was there, or last.
    pub fn update(&mut self, key: Vec<String>, value: Vec<String>)
        ensures
            final(self)@ == updated(old(self)@, chars_of(key@), chars_of(value@)),
    {
        let ghost before = self@;
        match self.find(&key) {
            Some(i) => {
                let row = Row { key, value };
                self.rows.set(i, row);
                assert(self@ =~= before.update(i as int, row@));
            },
            None => {
                let row = Row { key, value };
                self.rows.push(row);
                assert(self@ =~= before.push(row@));
            },
        }
    }

    /// Stores `value` under `key`, unless there is a row already.
    pub fn extend(&mut self, key: Vec<String>, value: Vec<String>)
        ensures
            final(self)@ == extended(old(self)@, chars_of(key@), chars_of(value@)),
    {
        let ghost before = self@;
        if self.find(&key).is_none() {
            let row = Row { key, value };
            self.rows.push(row);
            assert(self@ =~= before.push(row@));
        }
    }

    /// Takes the row under a key out.
    pub fn remove(&mut self, key: &Vec<String>)
        ensures
            final(self)@ == without(old(self)@, chars_of(key@)),
    {
        let ghost before = self@;
        match self.find(key) {
            Some(i) => {
                let _ = self.rows.remove(i);
                assert(self@ =~= before.remove(i as int));
            },
            None => {},
        }
    }
}

} // verus!
