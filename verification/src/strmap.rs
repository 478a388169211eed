//! A map keyed by text that keeps its entries in the order in which their
//! keys first came.

use crate::text::same_text;
use vstd::prelude::*;
use vstd::string::*;

verus! {

/// True when no two of the entries have the same key.
pub open spec fn distinct_keys<V>(entries: Seq<(Seq<char>, V)>) -> bool {
    forall|i: int, j: int|
        0 <= i < entries.len() && 0 <= j < entries.len() && (#[trigger] entries[i]).0 == (
        #[trigger] entries[j]).0 ==> i == j
}

/// True when one of the entries has the key.
pub open spec fn has_key<V>(entries: Seq<(Seq<char>, V)>, key: Seq<char>) -> bool {
    exists|i: int| 0 <= i < entries.len() && (#[trigger] entries[i]).0 == key
}

/// The place of an entry with the key.
pub open spec fn key_index<V>(entries: Seq<(Seq<char>, V)>, key: Seq<char>) -> int {
    choose|i: int| 0 <= i < entries.len() && (#[trigger] entries[i]).0 == key
}

/// The map that the entries stand for.
pub open spec fn entries_map<V>(entries: Seq<(Seq<char>, V)>) -> Map<Seq<char>, V> {
    Map::new(|key: Seq<char>| has_key(entries, key), |key: Seq<char>| entries[key_index(entries, key)].1)
}

/// A map from text to `V`.
#[derive(Debug)]
pub struct StrMap<V> {
    items: Vec<(String, V)>,
}

impl<V> View for StrMap<V> {
    type V = Map<Seq<char>, V>;

    open spec fn view(&self) -> Map<Seq<char>, V> {
        entries_map(self.entries())
    }
}

impl<V> StrMap<V> {
    /// The entries in the order in which their keys first came.
    pub closed spec fn entries(&self) -> Seq<(Seq<char>, V)> {
        Seq::new(self.items@.len(), |i: int| (self.items@[i].0@, self.items@[i].1))
    }

    #[verifier::type_invariant]
    spec fn wf(&self) -> bool {
        distinct_keys(self.entries())
    }

    /// An empty map.
    pub fn new() -> (map: Self)
        ensures
            map@ == Map::<Seq<char>, V>::empty(),
            map.entries().len() == 0,
    {
        let map = StrMap { items: Vec::new() };
        assert(map@ =~= Map::<Seq<char>, V>::empty());
        map
    }

    /// The number of entries.
    pub fn len(&self) -> (len: usize)
        ensures
            len == self.entries().len(),
            distinct_keys(self.entries()),
    {
        proof {
            use_type_invariant(self);
        }
        self.items.len()
    }

    /// True when the map has no entry.
    pub fn is_empty(&self) -> (empty: bool)
        ensures
            empty == (self.entries().len() == 0),
    {
        self.items.len() == 0
    }

    /// The key of the `i`-th entry.
    pub fn key_at(&self, i: usize) -> (key: &str)
        requires
            i < self.entries().len(),
        ensures
            key@ == self.entries()[i as int].0,
    {
        self.items[i].0.as_str()
    }

    /// The value of the `i`-th entry.
    pub fn value_at(&self, i: usize) -> (value: &V)
        requires
            i < self.entries().len(),
        ensures
            *value == self.entries()[i as int].1,
    {
        &self.items[i].1
    }

    fn find(&self, key: &str) -> (found: Option<usize>)
        ensures
            match found {
                Some(i) => i < self.entries().len() && self.entries()[i as int].0 == key@,
                None => !has_key(self.entries(), key@),
            },
    {
        let mut i: usize = 0;
        while i < self.items.len()
            invariant
                0 <= i <= self.items.len(),
                forall|k: int| 0 <= k < i ==> (#[trigger] self.entries()[k]).0 != key@,
            decreases self.items.len() - i,
        {
            if same_text(self.items[i].0.as_str(), key) {
                return Some(i);
            }
            i = i + 1;
        }
        None
    }

    /// True when the map has an entry for `key`.
    pub fn contains_key(&self, key: &str) -> (has: bool)
        ensures
            has == self@.contains_key(key@),
    {
        self.find(key).is_some()
    }

    /// The value that the map holds for `key`.
    pub fn get(&self, key: &str) -> (value: Option<&V>)
        ensures
            match value {
                Some(v) => self@.contains_key(key@) && *v == self@[key@],
                None => !self@.contains_key(key@),
            },
    {
        proof {
            use_type_invariant(self);
            lemma_entries_map(self.entries());
        }
        match self.find(key) {
            Some(i) => Some(&self.items[i].1),
            None => None,
        }
    }

    /// Sets the value for `key`. A key that the map already has keeps its
    /// place among the entries; a new one comes last.
    pub fn insert(&mut self, key: String, value: V)
        ensures
            final(self)@ == old(self)@.insert(key@, value),
            final(self).entries() == (if has_key(old(self).entries(), key@) {
                old(self).entries().update(key_index(old(self).entries(), key@), (key@, value))
            } else {
                old(self).entries().push((key@, value))
            }),
    {
        proof {
            use_type_invariant(&*self);
        }
        let ghost before = self.entries();
        let found = self.find(key.as_str());
        let mut taken = StrMap { items: Vec::new() };
        std::mem::swap(self, &mut taken);
        let mut items = taken.items;
        match found {
            Some(i) => {
                proof {
                    assert(has_key(before, key@));
                    assert(key_index(before, key@) == i);
                    lemma_update_inserts(before, i as int, value);
                }
                items.set(i, (key, value));
            },
            None => {
                proof {
                    lemma_push_inserts(before, key@, value);
                }
                items.push((key, value));
            },
        }
        let ghost after = Seq::new(items@.len(), |i: int| (items@[i].0@, items@[i].1));
        proof {
            if found is Some {
                assert(after =~= before.update(found->0 as int, (key@, value)));
            } else {
                assert(after =~= before.push((key@, value)));
            }
        }
        *self = StrMap { items };
    }
}

/// Entries without a repeated key are their map: the map holds each of
/// them and nothing else.
pub proof fn lemma_entries_map<V>(entries: Seq<(Seq<char>, V)>)
    requires
        distinct_keys(entries),
    ensures
        entries_map(entries).dom().finite(),
        forall|i: int|
            0 <= i < entries.len() ==> entries_map(entries).contains_key(
                (#[trigger] entries[i]).0,
            ) && entries_map(entries)[entries[i].0] == entries[i].1,
        forall|key: Seq<char>| entries_map(entries).contains_key(key) ==> has_key(entries, key),
{
    assert forall|i: int| 0 <= i < entries.len() implies entries_map(entries).contains_key(
        (#[trigger] entries[i]).0,
    ) && entries_map(entries)[entries[i].0] == entries[i].1 by {
        let key = entries[i].0;
        assert(has_key(entries, key));
        assert(key_index(entries, key) == i);
    }
    lemma_entries_map_finite(entries);
}

proof fn lemma_entries_map_finite<V>(entries: Seq<(Seq<char>, V)>)
    ensures
        entries_map(entries).dom().finite(),
    decreases entries.len(),
{
    if entries.len() == 0 {
        assert(entries_map(entries).dom() =~= Set::<Seq<char>>::empty());
    } else {
        let front = entries.drop_last();
        lemma_entries_map_finite(front);
        let key = entries.last().0;
        assert(entries_map(entries).dom() =~= entries_map(front).dom().insert(key)) by {
            assert forall|k: Seq<char>| has_key(entries, k) <==> (has_key(front, k) || k
                == key) by {
                if has_key(entries, k) {
                    let i = key_index(entries, k);
                    if i < front.len() {
                        assert(front[i].0 == k);
                    }
                }
                if has_key(front, k) {
                    let i = key_index(front, k);
                    assert(entries[i].0 == k);
                }
                if k == key {
                    assert(entries[entries.len() - 1].0 == k);
                }
            }
        }
    }
}

proof fn lemma_update_inserts<V>(entries: Seq<(Seq<char>, V)>, at: int, value: V)
    requires
        distinct_keys(entries),
        0 <= at < entries.len(),
    ensures
        distinct_keys(entries.update(at, (entries[at].0, value))),
        entries_map(entries.update(at, (entries[at].0, value))) == entries_map(entries).insert(
            entries[at].0,
            value,
        ),
{
    let key = entries[at].0;
    let after = entries.update(at, (key, value));
    assert forall|i: int, j: int|
        0 <= i < after.len() && 0 <= j < after.len() && (#[trigger] after[i]).0 == (
        #[trigger] after[j]).0 implies i == j by {
        assert(after[i].0 == entries[i].0);
        assert(after[j].0 == entries[j].0);
    }
    assert forall|k: Seq<char>| has_key(after, k) <==> has_key(entries, k) by {
        if has_key(after, k) {
            let i = key_index(after, k);
            assert(entries[i].0 == k);
        }
        if has_key(entries, k) {
            let i = key_index(entries, k);
            assert(after[i].0 == k);
        }
    }
    assert forall|k: Seq<char>| has_key(after, k) implies entries_map(after)[k] == entries_map(
        entries,
    ).insert(key, value)[k] by {
        let i = key_index(after, k);
        let j = key_index(entries, k);
        assert(after[i].0 == entries[i].0);
        assert(i == j);
    }
    assert(has_key(entries, key));
    assert(entries_map(after) =~= entries_map(entries).insert(key, value));
}

proof fn lemma_push_inserts<V>(entries: Seq<(Seq<char>, V)>, key: Seq<char>, value: V)
    requires
        distinct_keys(entries),
        !has_key(entries, key),
    ensures
        distinct_keys(entries.push((key, value))),
        entries_map(entries.push((key, value))) == entries_map(entries).insert(key, value),
{
    let after = entries.push((key, value));
    assert forall|i: int, j: int|
        0 <= i < after.len() && 0 <= j < after.len() && (#[trigger] after[i]).0 == (
        #[trigger] after[j]).0 implies i == j by {
        if i < entries.len() {
            assert(after[i] == entries[i]);
        }
        if j < entries.len() {
            assert(after[j] == entries[j]);
        }
    }
    assert forall|k: Seq<char>| has_key(after, k) <==> (has_key(entries, k) || k == key) by {
        if has_key(after, k) {
            let i = key_index(after, k);
            if i < entries.len() {
                assert(entries[i].0 == k);
            }
        }
        if has_key(entries, k) {
            let i = key_index(entries, k);
            assert(after[i].0 == k);
        }
        if k == key {
            assert(after[entries.len() as int].0 == k);
        }
    }
    assert forall|k: Seq<char>| has_key(after, k) implies entries_map(after)[k] == entries_map(
        entries,
    ).insert(key, value)[k] by {
        let i = key_index(after, k);
        if k != key {
            let j = key_index(entries, k);
            assert(after[j] == entries[j]);
            assert(i == j);
        } else {
            assert(after[entries.len() as int].0 == k);
            assert(i == entries.len());
        }
    }
    assert(entries_map(after) =~= entries_map(entries).insert(key, value));
}

} // verus!
