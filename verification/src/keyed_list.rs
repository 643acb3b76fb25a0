//! A list of entries with distinct keys, which stands for a map.
use vstd::prelude::*;

verus! {

/// A key that can be compared.
pub trait Key: Copy {
    /// Returns whether two keys are the same.
    fn same(&self, other: &Self) -> (result: bool)
        ensures
            result == (*self == *other),
    ;
}

/// The map that a list of entries stands for.
pub open spec fn as_map<K, V>(entries: Seq<(K, V)>) -> Map<K, V> {
    Map::new(
        |key: K| exists|i: int| 0 <= i < entries.len() && (#[trigger] entries[i]).0 == key,
        |key: K|
            entries[choose|i: int| 0 <= i < entries.len() && (#[trigger] entries[i]).0 == key].1,
    )
}

/// No key occurs twice.
pub open spec fn distinct<K, V>(entries: Seq<(K, V)>) -> bool {
    forall|i: int, j: int|
        0 <= i < j < entries.len() ==> (#[trigger] entries[i]).0 != (#[trigger] entries[j]).0
}

/// Each entry of a list with distinct keys is an entry of the map.
pub proof fn lemma_entry<K, V>(entries: Seq<(K, V)>, index: int)
    requires
        distinct(entries),
        0 <= index < entries.len(),
    ensures
        as_map(entries).contains_key(entries[index].0),
        as_map(entries)[entries[index].0] == entries[index].1,
{
    let key = entries[index].0;
    let chosen = choose|i: int| 0 <= i < entries.len() && (#[trigger] entries[i]).0 == key;
    assert(entries[index].0 == key);
    assert(0 <= chosen < entries.len() && entries[chosen].0 == key);
    if chosen < index {
        assert(entries[chosen].0 != entries[index].0);
    } else if index < chosen {
        assert(entries[index].0 != entries[chosen].0);
    }
}

/// A key of the map is the key of an entry.
pub proof fn lemma_key<K, V>(entries: Seq<(K, V)>, key: K) -> (index: int)
    requires
        as_map(entries).contains_key(key),
    ensures
        0 <= index < entries.len(),
        entries[index].0 == key,
        as_map(entries)[key] == entries[index].1,
{
    choose|i: int| 0 <= i < entries.len() && (#[trigger] entries[i]).0 == key
}

/// The map has as many keys as the list has entries.
proof fn lemma_len<K, V>(entries: Seq<(K, V)>)
    requires
        distinct(entries),
    ensures
        as_map(entries).dom().finite(),
        as_map(entries).dom().len() == entries.len(),
    decreases entries.len(),
{
    if entries.len() == 0 {
        assert(as_map(entries).dom() =~= Set::<K>::empty());
    } else {
        let front = entries.drop_last();
        let last = entries.last();
        lemma_len(front);
        assert forall|key: K| #[trigger]
            as_map(entries).dom().contains(key) <==> as_map(front).dom().insert(last.0).contains(
                key,
            ) by {
            if as_map(entries).contains_key(key) {
                let i = lemma_key(entries, key);
                if i < front.len() {
                    assert(front[i].0 == key);
                }
            }
            if as_map(front).contains_key(key) {
                let i = lemma_key(front, key);
                assert(entries[i].0 == key);
            }
            if key == last.0 {
                assert(entries[entries.len() - 1].0 == key);
            }
        }
        assert(as_map(entries).dom() =~= as_map(front).dom().insert(last.0));
        if as_map(front).contains_key(last.0) {
            let i = lemma_key(front, last.0);
            assert(entries[i].0 == entries[entries.len() - 1].0);
        }
    }
}

/// A map, held as a list of entries with distinct keys.
#[derive(Debug)]
pub struct KeyedList<K, V> {
    entries: Vec<(K, V)>,
}

impl<K, V> View for KeyedList<K, V> {
    type V = Map<K, V>;

    closed spec fn view(&self) -> Map<K, V> {
        as_map(self.entries@)
    }
}

impl<K: Key, V> KeyedList<K, V> {
    /// No key occurs twice.
    pub closed spec fn wf(&self) -> bool {
        distinct(self.entries@)
    }

    /// Initializes a list without entries.
    pub fn new() -> (list: Self)
        ensures
            list.wf(),
            list@ == Map::<K, V>::empty(),
    {
        let list = KeyedList { entries: Vec::new() };
        assert(list@ =~= Map::<K, V>::empty());
        list
    }

    /// Returns the position of the entry with the given key.
    fn position(&self, key: &K) -> (position: Option<usize>)
        requires
            self.wf(),
        ensures
            match position {
                Some(i) => i < self.entries@.len() && self.entries@[i as int].0 == *key,
                None => !self@.contains_key(*key),
            },
    {
        for i in 0..self.entries.len()
            invariant
                forall|j: int| 0 <= j < i ==> (#[trigger] self.entries@[j]).0 != *key,
        {
            if self.entries[i].0.same(key) {
                return Some(i);
            }
        }
        None
    }

    /// Returns whether there is an entry with the given key.
    pub fn contains_key(&self, key: &K) -> (found: bool)
        requires
            self.wf(),
        ensures
            found == self@.contains_key(*key),
    {
        match self.position(key) {
            Some(i) => {
                proof {
                    lemma_entry(self.entries@, i as int);
                }
                true
            },
            None => false,
        }
    }

    /// Returns the value of the entry with the given key.
    pub fn get(&self, key: &K) -> (value: Option<&V>)
        requires
            self.wf(),
        ensures
            match value {
                Some(value) => self@.contains_key(*key) && self@[*key] == *value,
                None => !self@.contains_key(*key),
            },
    {
        match self.position(key) {
            Some(i) => {
                proof {
                    lemma_entry(self.entries@, i as int);
                }
                Some(&self.entries[i].1)
            },
            None => None,
        }
    }

    /// Removes the entry with the given key, and returns its value.
    pub fn remove(&mut self, key: &K) -> (removed: Option<V>)
        requires
            old(self).wf(),
        ensures
            final(self).wf(),
            final(self)@ == old(self)@.remove(*key),
            match removed {
                Some(value) => old(self)@.contains_key(*key) && old(self)@[*key] == value,
                None => !old(self)@.contains_key(*key),
            },
    {
        let ghost before = self.entries@;
        match self.position(key) {
            Some(i) => {
                proof {
                    lemma_entry(before, i as int);
                }
                let entry = self.entries.remove(i);
                let ghost after = self.entries@;
                proof {
                    assert(after =~= before.remove(i as int));
                    assert forall|k: K| #[trigger]
                        as_map(after).contains_key(k) <==> as_map(before).remove(
                            *key,
                        ).contains_key(k) by {
                        if as_map(after).contains_key(k) {
                            let j = lemma_key(after, k);
                            let source = if j < i {
                                j
                            } else {
                                j + 1
                            };
                            assert(before[source].0 == k);
                            lemma_entry(before, source);
                        }
                        if as_map(before).contains_key(k) && k != *key {
                            let j = lemma_key(before, k);
                            let target = if j < i {
                                j
                            } else {
                                j - 1
                            };
                            assert(after[target].0 == k);
                        }
                    }
                    assert forall|k: K| #[trigger] as_map(after).contains_key(k) implies as_map(
                        after,
                    )[k] == as_map(before)[k] by {
                        let j = lemma_key(after, k);
                        let source = if j < i {
                            j
                        } else {
                            j + 1
                        };
                        assert(before[source] == after[j]);
                        lemma_entry(before, source);
                    }
                    assert(as_map(after) =~= as_map(before).remove(*key));
                }
                Some(entry.1)
            },
            None => {
                assert(self@ =~= old(self)@.remove(*key));
                None
            },
        }
    }

    /// Makes the value that of the given key, and returns the one that it replaces.
    pub fn insert(&mut self, key: K, value: V) -> (replaced: Option<V>)
        requires
            old(self).wf(),
        ensures
            final(self).wf(),
            final(self)@ == old(self)@.insert(key, value),
            match replaced {
                Some(previous) => old(self)@.contains_key(key) && old(self)@[key] == previous,
                None => !old(self)@.contains_key(key),
            },
    {
        let replaced = self.remove(&key);
        let ghost before = self.entries@;
        assert(forall|i: int| 0 <= i < before.len() ==> (#[trigger] before[i]).0 != key) by {
            assert forall|i: int| 0 <= i < before.len() implies (#[trigger] before[i]).0 != key by {
                lemma_entry(before, i);
            }
        }
        self.entries.push((key, value));
        let ghost after = self.entries@;
        proof {
            assert(distinct(after));
            assert forall|k: K| #[trigger]
                as_map(after).contains_key(k) <==> as_map(before).insert(key, value).contains_key(
                    k,
                ) by {
                if as_map(after).contains_key(k) {
                    let j = lemma_key(after, k);
                    if j < before.len() {
                        lemma_entry(before, j);
                    }
                }
                if as_map(before).contains_key(k) {
                    let j = lemma_key(before, k);
                    assert(after[j].0 == k);
                }
                if k == key {
                    assert(after[before.len() as int].0 == k);
                }
            }
            assert forall|k: K| #[trigger] as_map(after).contains_key(k) implies as_map(after)[k]
                == as_map(before).insert(key, value)[k] by {
                let j = lemma_key(after, k);
                lemma_entry(after, j);
                if j < before.len() {
                    lemma_entry(before, j);
                }
            }
            assert(as_map(after) =~= as_map(before).insert(key, value));
            assert(old(self)@.remove(key).insert(key, value) =~= old(self)@.insert(key, value));
        }
        replaced
    }

    /// Returns the number of entries.
    pub fn len(&self) -> (len: usize)
        requires
            self.wf(),
        ensures
            self@.dom().finite(),
            len == self@.dom().len(),
    {
        proof {
            lemma_len(self.entries@);
        }
        self.entries.len()
    }

    /// Returns the keys, each once.
    pub fn keys(&self) -> (keys: Vec<K>)
        requires
            self.wf(),
        ensures
            keys@.no_duplicates(),
            keys@.to_set() == self@.dom(),
    {
        let mut keys: Vec<K> = Vec::new();
        for i in 0..self.entries.len()
            invariant
                keys.len() == i,
                forall|j: int| 0 <= j < i ==> #[trigger] keys@[j] == self.entries@[j].0,
        {
            keys.push(self.entries[i].0);
        }
        proof {
            let entries = self.entries@;
            assert forall|key: K| #[trigger]
                keys@.to_set().contains(key) <==> self@.dom().contains(key) by {
                if keys@.contains(key) {
                    let i = choose|i: int| 0 <= i < keys@.len() && keys@[i] == key;
                    lemma_entry(entries, i);
                }
                if self@.contains_key(key) {
                    let i = lemma_key(entries, key);
                    assert(keys@[i] == key);
                }
            }
            assert(keys@.to_set() =~= self@.dom());
        }
        keys
    }
}

} // verus!
