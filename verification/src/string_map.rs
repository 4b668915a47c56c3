//! A map with text keys that can be walked.

use vstd::prelude::*;

verus! {

/// A map from text to values. No key occurs twice.
#[derive(Debug)]
pub struct StringMap<Value> {
    entries: Vec<(String, Value)>,
}

impl<Value> View for StringMap<Value> {
    type V = Map<Seq<char>, Value>;

    closed spec fn view(&self) -> Map<Seq<char>, Value> {
        Map::new(
            |key: Seq<char>| self.keys().contains(key),
            |key: Seq<char>| self.entries@[self.keys().index_of(key)].1,
        )
    }
}

impl<Value> StringMap<Value> {
    /// The keys, in the order in which the map is walked.
    pub closed spec fn keys(self) -> Seq<Seq<char>> {
        self.entries@.map_values(|entry: (String, Value)| entry.0@)
    }

    /// No key occurs twice.
    pub open spec fn well_formed(self) -> bool {
        self.keys().no_duplicates()
    }

    /// The walk meets every key of the map, each once.
    pub proof fn lemma_keys(self)
        requires
            self.well_formed(),
        ensures
            forall|key: Seq<char>| self.keys().contains(key) <==> #[trigger] self@.contains_key(key),
            self.keys().to_set() == self@.dom(),
            self@.dom().finite(),
            self@.len() == self.keys().len(),
    {
        assert(self.keys().to_set() =~= self@.dom());
        self.keys().unique_seq_to_set();
    }

    proof fn lemma_value(self, index: int)
        requires
            self.well_formed(),
            0 <= index < self.entries@.len(),
        ensures
            self@.contains_key(self.entries@[index].0@),
            self@[self.entries@[index].0@] == self.entries@[index].1,
    {
        assert(self.keys()[index] == self.entries@[index].0@);
        assert(self.keys().contains(self.keys()[index]));
    }

    /// An empty map.
    pub fn new() -> (map: Self)
        ensures
            map.well_formed(),
            map@ == Map::<Seq<char>, Value>::empty(),
    {
        let map = StringMap { entries: Vec::new() };
        assert(map@ =~= Map::<Seq<char>, Value>::empty());
        map
    }

    /// The number of keys.
    pub fn len(&self) -> (count: usize)
        requires
            self.well_formed(),
        ensures
            count == self@.len(),
            count == self.keys().len(),
    {
        proof {
            self.lemma_keys();
        }
        self.entries.len()
    }

    /// The key and the value that the walk meets at a position.
    pub fn entry(&self, index: usize) -> (entry: (&String, &Value))
        requires
            self.well_formed(),
            index < self.keys().len(),
        ensures
            entry.0@ == self.keys()[index as int],
            self@.contains_key(entry.0@),
            *entry.1 == self@[entry.0@],
    {
        proof {
            self.lemma_value(index as int);
        }
        let entry = &self.entries[index];
        (&entry.0, &entry.1)
    }

    fn position(&self, key: &String) -> (found: Option<usize>)
        requires
            self.well_formed(),
        ensures
            match found {
                Some(index) => index < self.entries@.len() && self.entries@[index as int].0@
                    == key@,
                None => !self.keys().contains(key@),
            },
    {
        let mut index: usize = 0;
        while index < self.entries.len()
            invariant
                index <= self.entries.len(),
                forall|i: int| 0 <= i < index ==> #[trigger] self.keys()[i] != key@,
            decreases self.entries.len() - index,
        {
            if self.entries[index].0 == *key {
                return Some(index);
            }
            assert(self.keys()[index as int] != key@);
            index = index + 1;
        }
        None
    }

    /// The value of a key.
    pub fn get(&self, key: &String) -> (value: Option<&Value>)
        requires
            self.well_formed(),
        ensures
            match value {
                Some(found) => self@.contains_key(key@) && *found == self@[key@],
                None => !self@.contains_key(key@),
            },
    {
        match self.position(key) {
            Some(index) => {
                proof {
                    self.lemma_value(index as int);
                }
                Some(&self.entries[index].1)
            },
            None => None,
        }
    }

    /// Gives a key a value, in place of the one it had.
    pub fn insert(&mut self, key: String, value: Value)
        requires
            old(self).well_formed(),
        ensures
            final(self).well_formed(),
            final(self)@ == old(self)@.insert(key@, value),
    {
        let ghost before = *self;
        let ghost text = key@;
        let found = self.position(&key);
        match found {
            Some(index) => {
                self.entries.set(index, (key, value));
                assert(self.keys() =~= before.keys());
                assert(self.keys()[index as int] == text);
                proof {
                    before.lemma_value(index as int);
                }
                assert forall|other: Seq<char>| self@.contains_key(other) implies self@[other]
                    == before@.insert(text, value)[other] by {
                    let at = self.keys().index_of(other);
                    self.lemma_value(at);
                    before.lemma_value(at);
                }
                assert(self@ =~= before@.insert(text, value));
            },
            None => {
                self.entries.push((key, value));
                assert(self.keys() =~= before.keys().push(text));
                assert forall|other: Seq<char>| self@.contains_key(other) <==> before@.insert(
                    text,
                    value,
                ).contains_key(other) by {
                    if before.keys().contains(other) {
                        let at = before.keys().index_of(other);
                        assert(self.keys()[at] == other);
                    }
                    if other == text {
                        assert(self.keys()[before.keys().len() as int] == text);
                    }
                }
                assert forall|other: Seq<char>| self@.contains_key(other) implies self@[other]
                    == before@.insert(text, value)[other] by {
                    let at = self.keys().index_of(other);
                    self.lemma_value(at);
                    if at < before.keys().len() {
                        before.lemma_value(at);
                    }
                }
                assert(self@ =~= before@.insert(text, value));
            },
        }
    }

    /// Takes a key out of the map and hands back the value it had.
    pub fn remove(&mut self, key: &String) -> (value: Option<Value>)
        requires
            old(self).well_formed(),
        ensures
            final(self).well_formed(),
            final(self)@ == old(self)@.remove(key@),
            match value {
                Some(found) => old(self)@.contains_key(key@) && found == old(self)@[key@],
                None => !old(self)@.contains_key(key@),
            },
    {
        let ghost before = *self;
        match self.position(key) {
            Some(index) => {
                proof {
                    before.lemma_value(index as int);
                }
                let (_, value) = self.entries.remove(index);
                assert(self.keys() =~= before.keys().remove(index as int));
                assert(self.well_formed()) by {
                    assert forall|i: int, j: int|
                        0 <= i < self.keys().len() && 0 <= j < self.keys().len() && i
                            != j implies self.keys()[i] != self.keys()[j] by {
                        let old_i = if i < index { i } else { i + 1 };
                        let old_j = if j < index { j } else { j + 1 };
                        assert(before.keys()[old_i] != before.keys()[old_j]);
                    }
                }
                assert forall|other: Seq<char>| self@.contains_key(other) <==> before@.remove(
                    key@,
                ).contains_key(other) by {
                    if self.keys().contains(other) {
                        let at = self.keys().index_of(other);
                        let old_at = if at < index { at } else { at + 1 };
                        assert(before.keys()[old_at] == other);
                        assert(before.keys()[index as int] == key@);
                    }
                    if before.keys().contains(other) && other != key@ {
                        let old_at = before.keys().index_of(other);
                        let at = if old_at < index { old_at } else { old_at - 1 };
                        assert(self.keys()[at] == other);
                    }
                }
                assert forall|other: Seq<char>| self@.contains_key(other) implies self@[other]
                    == before@.remove(key@)[other] by {
                    let at = self.keys().index_of(other);
                    self.lemma_value(at);
                    let old_at = if at < index { at } else { at + 1 };
                    before.lemma_value(old_at);
                }
                assert(self@ =~= before@.remove(key@));
                Some(value)
            },
            None => {
                assert(self@ =~= before@.remove(key@));
                None
            },
        }
    }
}

} // verus!
