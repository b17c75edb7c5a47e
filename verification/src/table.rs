//! A table of values under text keys, kept in the order in which the keys first came.
use crate::text;
use vstd::prelude::*;

verus! {

/// Values under text keys. No key occurs twice.
pub struct Table<V> {
    entries: Vec<(String, V)>,
}

/// No text occurs twice.
pub open spec fn distinct(keys: Seq<Seq<char>>) -> bool {
    forall|i: int, j: int|
        0 <= i < keys.len() && 0 <= j < keys.len() && #[trigger] keys[i] == #[trigger] keys[j]
            ==> i == j
}

/// The table with these keys and, at the same positions, these values.
pub open spec fn table_of<V>(keys: Seq<Seq<char>>, values: Seq<V>) -> Map<Seq<char>, V> {
    Map::new(|k: Seq<char>| keys.contains(k), |k: Seq<char>| values[keys.index_of(k)])
}

/// The entries of the table are these values, each under the key at its position; no key
/// is left out and none occurs twice.
pub open spec fn lists<V>(
    table: Map<Seq<char>, V>,
    keys: Seq<Seq<char>>,
    values: Seq<V>,
) -> bool {
    &&& keys.len() == values.len()
    &&& distinct(keys)
    &&& forall|k: Seq<char>| #[trigger] table.contains_key(k) <==> keys.contains(k)
    &&& forall|i: int|
        0 <= i < keys.len() ==> table.contains_key(#[trigger] keys[i]) && table[keys[i]]
            == values[i]
}

/// The two hold the same under every key but this one.
pub open spec fn same_but<V>(
    before: Map<Seq<char>, V>,
    after: Map<Seq<char>, V>,
    key: Seq<char>,
) -> bool {
    forall|k: Seq<char>|
        #![trigger after.contains_key(k)]
        #![trigger before.contains_key(k)]
        k != key ==> {
            &&& after.contains_key(k) == before.contains_key(k)
            &&& before.contains_key(k) ==> after[k] == before[k]
        }
}

impl<V> View for Table<V> {
    type V = Map<Seq<char>, V>;

    open spec fn view(&self) -> Map<Seq<char>, V> {
        table_of(self.keys(), self.values())
    }
}

impl<V> Table<V> {
    /// The keys, in order.
    pub closed spec fn keys(&self) -> Seq<Seq<char>> {
        self.entries@.map_values(|e: (String, V)| e.0@)
    }

    /// The values, in the order of their keys.
    pub closed spec fn values(&self) -> Seq<V> {
        self.entries@.map_values(|e: (String, V)| e.1)
    }

    /// No key occurs twice.
    #[verifier::type_invariant]
    pub open spec fn keys_are_distinct(&self) -> bool {
        distinct(self.keys())
    }

    /// The keys and the values, position by position, are the entries of the table.
    pub proof fn entries_are_listed(&self)
        requires
            self.keys_are_distinct(),
        ensures
            lists(self@, self.keys(), self.values()),
    {
        assert forall|i: int| 0 <= i < self.keys().len() implies self@.contains_key(
            #[trigger] self.keys()[i],
        ) && self@[self.keys()[i]] == self.values()[i] by {
            lemma_index_of(self.keys(), i);
        }
    }

    /// An empty table.
    pub fn new() -> (table: Self)
        ensures
            table.keys() == Seq::<Seq<char>>::empty(),
            table.values() == Seq::<V>::empty(),
            table@ == Map::<Seq<char>, V>::empty(),
    {
        let table = Table { entries: Vec::new() };
        assert(table.keys() =~= Seq::empty());
        assert(table.values() =~= Seq::empty());
        assert(table@ =~= Map::empty());
        table
    }

    /// Number of entries.
    pub fn len(&self) -> (n: usize)
        ensures
            n == self.keys().len(),
            lists(self@, self.keys(), self.values()),
    {
        proof {
            use_type_invariant(self);
            self.entries_are_listed();
        }
        self.entries.len()
    }

    /// The key at a position.
    pub fn key_at(&self, i: usize) -> (key: &String)
        requires
            i < self.keys().len(),
        ensures
            key@ == self.keys()[i as int],
    {
        &self.entries[i].0
    }

    /// The value at a position.
    pub fn value_at(&self, i: usize) -> (value: &V)
        requires
            i < self.keys().len(),
        ensures
            *value == self.values()[i as int],
    {
        &self.entries[i].1
    }

    /// The position of a key.
    pub fn position(&self, key: &str) -> (position: Option<usize>)
        ensures
            match position {
                Some(i) => i < self.keys().len() && self.keys()[i as int] == key@
                    && self@.contains_key(key@) && self@[key@] == self.values()[i as int],
                None => !self@.contains_key(key@),
            },
    {
        proof {
            use_type_invariant(self);
        }
        let mut i: usize = 0;
        while i < self.entries.len()
            invariant
                i <= self.entries@.len(),
                distinct(self.keys()),
                forall|j: int| 0 <= j < i ==> #[trigger] self.keys()[j] != key@,
            decreases self.entries@.len() - i,
        {
            if text::same(self.entries[i].0.as_str(), key) {
                proof {
                    assert(self.keys()[i as int] == key@);
                    lemma_index_of(self.keys(), i as int);
                }
                return Some(i);
            }
            i = i + 1;
        }
        None
    }

    /// Whether a key is in the table.
    pub fn contains_key(&self, key: &str) -> (r: bool)
        ensures
            r == self@.contains_key(key@),
    {
        self.position(key).is_some()
    }

    /// The value under a key.
    pub fn get(&self, key: &str) -> (value: Option<&V>)
        ensures
            match value {
                Some(v) => self@.contains_key(key@) && *v == self@[key@],
                None => !self@.contains_key(key@),
            },
    {
        match self.position(key) {
            Some(i) => Some(self.value_at(i)),
            None => None,
        }
    }

    /// Put a value under a key, in the place of the one that was there.
    pub fn insert(&mut self, key: &str, value: V)
        ensures
            final(self)@ == old(self)@.insert(key@, value),
            old(self)@.contains_key(key@) ==> final(self).keys() == old(self).keys(),
            !old(self)@.contains_key(key@) ==> final(self).keys() == old(self).keys().push(key@),
            !old(self)@.contains_key(key@) ==> final(self).values() == old(self).values().push(
                value,
            ),
    {
        proof {
            use_type_invariant(&*self);
        }
        let found = self.position(key);
        let ghost old_keys = self.keys();
        let ghost old_values = self.values();
        let mut entries: Vec<(String, V)> = Vec::new();
        std::mem::swap(&mut entries, &mut self.entries);
        match found {
            Some(i) => {
                entries.set(i, (key.to_owned(), value));
                proof {
                    let keys = entries@.map_values(|e: (String, V)| e.0@);
                    let values = entries@.map_values(|e: (String, V)| e.1);
                    assert(keys =~= old_keys);
                    assert(values =~= old_values.update(i as int, value));
                    lemma_index_of(old_keys, i as int);
                    assert(table_of(keys, values) =~= table_of(old_keys, old_values).insert(
                        key@,
                        value,
                    )) by {
                        assert forall|k: Seq<char>| #[trigger] old_keys.contains(k) implies 0
                            <= old_keys.index_of(k) < old_keys.len() && old_keys[old_keys.index_of(
                            k,
                        )] == k by {}
                    }
                }
            },
            None => {
                entries.push((key.to_owned(), value));
                proof {
                    let keys = entries@.map_values(|e: (String, V)| e.0@);
                    let values = entries@.map_values(|e: (String, V)| e.1);
                    assert(keys =~= old_keys.push(key@));
                    assert(values =~= old_values.push(value));
                    lemma_push(old_keys, old_values, key@, value);
                }
            },
        }
        self.entries = entries;
    }

    /// Take the entry at a position out of the table.
    pub fn remove_at(&mut self, i: usize)
        requires
            i < old(self).keys().len(),
        ensures
            final(self).keys() == old(self).keys().remove(i as int),
            final(self).values() == old(self).values().remove(i as int),
            final(self)@ == old(self)@.remove(old(self).keys()[i as int]),
    {
        proof {
            use_type_invariant(&*self);
        }
        let ghost old_keys = self.keys();
        let ghost old_values = self.values();
        let mut entries: Vec<(String, V)> = Vec::new();
        std::mem::swap(&mut entries, &mut self.entries);
        let _ = entries.remove(i);
        proof {
            let keys = entries@.map_values(|e: (String, V)| e.0@);
            let values = entries@.map_values(|e: (String, V)| e.1);
            assert(keys =~= old_keys.remove(i as int));
            assert(values =~= old_values.remove(i as int));
            lemma_remove(old_keys, old_values, i as int);
        }
        self.entries = entries;
    }

    /// Take the entry under a key out of the table, if there is one.
    pub fn remove(&mut self, key: &str)
        ensures
            final(self)@ == old(self)@.remove(key@),
    {
        match self.position(key) {
            Some(i) => {
                self.remove_at(i);
            },
            None => {
                assert(self@.remove(key@) =~= self@);
            },
        }
    }
}

proof fn lemma_index_of(keys: Seq<Seq<char>>, i: int)
    requires
        distinct(keys),
        0 <= i < keys.len(),
    ensures
        keys.contains(keys[i]),
        keys.index_of(keys[i]) == i,
{
    let j = keys.index_of(keys[i]);
    assert(0 <= j < keys.len() && keys[j] == keys[i]);
}

proof fn lemma_push<V>(keys: Seq<Seq<char>>, values: Seq<V>, key: Seq<char>, value: V)
    requires
        distinct(keys),
        keys.len() == values.len(),
        !keys.contains(key),
    ensures
        distinct(keys.push(key)),
        table_of(keys.push(key), values.push(value)) == table_of(keys, values).insert(key, value),
{
    let more = keys.push(key);
    assert(distinct(more)) by {
        assert forall|i: int, j: int|
            0 <= i < more.len() && 0 <= j < more.len() && #[trigger] more[i] == #[trigger] more[j] implies i
            == j by {
            if i < keys.len() && j < keys.len() {
                assert(keys[i] == more[i] && keys[j] == more[j]);
            } else if i < keys.len() {
                assert(keys[i] == key);
            } else if j < keys.len() {
                assert(keys[j] == key);
            }
        }
    }
    lemma_index_of(more, keys.len() as int);
    let new = table_of(more, values.push(value));
    let want = table_of(keys, values).insert(key, value);
    assert forall|k: Seq<char>| #[trigger] new.contains_key(k) == want.contains_key(k) by {
        if keys.contains(k) {
            let i = keys.index_of(k);
            assert(more[i] == k);
        }
        if more.contains(k) && k != key {
            let i = more.index_of(k);
            assert(keys[i] == k);
        }
    }
    assert forall|k: Seq<char>| #[trigger] new.contains_key(k) implies new[k] == want[k] by {
        if k != key {
            let i = keys.index_of(k);
            assert(more[i] == k);
            lemma_index_of(more, i);
        }
    }
    assert(new =~= want);
}

proof fn lemma_remove<V>(keys: Seq<Seq<char>>, values: Seq<V>, i: int)
    requires
        distinct(keys),
        keys.len() == values.len(),
        0 <= i < keys.len(),
    ensures
        distinct(keys.remove(i)),
        table_of(keys.remove(i), values.remove(i)) == table_of(keys, values).remove(keys[i]),
{
    let fewer = keys.remove(i);
    assert(distinct(fewer)) by {
        assert forall|a: int, b: int|
            0 <= a < fewer.len() && 0 <= b < fewer.len() && #[trigger] fewer[a]
                == #[trigger] fewer[b] implies a == b by {
            let c = if a < i {
                a
            } else {
                a + 1
            };
            let d = if b < i {
                b
            } else {
                b + 1
            };
            assert(keys[c] == fewer[a] && keys[d] == fewer[b]);
        }
    }
    let new = table_of(fewer, values.remove(i));
    let want = table_of(keys, values).remove(keys[i]);
    assert forall|k: Seq<char>| #[trigger] new.contains_key(k) == want.contains_key(k) by {
        if fewer.contains(k) {
            let a = fewer.index_of(k);
            let c = if a < i {
                a
            } else {
                a + 1
            };
            assert(keys[c] == k);
        }
        if keys.contains(k) && k != keys[i] {
            let c = keys.index_of(k);
            let a = if c < i {
                c
            } else {
                c - 1
            };
            assert(fewer[a] == k);
        }
    }
    assert forall|k: Seq<char>| #[trigger] new.contains_key(k) implies new[k] == want[k] by {
        let c = keys.index_of(k);
        let a = if c < i {
            c
        } else {
            c - 1
        };
        assert(keys.contains(k) && k != keys[i]);
        assert(fewer[a] == k);
        lemma_index_of(fewer, a);
    }
    assert(new =~= want);
}

/// A list of the entries of a table has each key once, none that is not in the table, and at
/// its position the value under that key.
pub proof fn law_lists_are_complete<V>(
    table: Map<Seq<char>, V>,
    keys: Seq<Seq<char>>,
    values: Seq<V>,
    key: Seq<char>,
)
    requires
        lists(table, keys, values),
    ensures
        keys.len() == values.len(),
        table.contains_key(key) <==> exists|i: int| 0 <= i < keys.len() && #[trigger] keys[i] == key,
        forall|i: int, j: int|
            0 <= i < j < keys.len() ==> #[trigger] keys[i] != #[trigger] keys[j],
        forall|i: int| 0 <= i < keys.len() ==> table[#[trigger] keys[i]] == values[i],
{
    if table.contains_key(key) {
        assert(keys.contains(key));
    }
    if exists|i: int| 0 <= i < keys.len() && #[trigger] keys[i] == key {
        assert(keys.contains(key));
    }
}

} // verus!
