//! Tables keyed by text: a hash index into a vector of values.

use crate::maps::{text_map_entries, text_map_get, text_map_insert, text_map_new};
use ahash::AHashMap;
use vstd::prelude::*;

verus! {

/// A table from texts to values of any type. The hash map holds, for
/// each key, the position of its value in the vector.
pub struct TextTable<V> {
    slots: AHashMap<String, u64>,
    values: Vec<V>,
}

impl<V> TextTable<V> {
    /// Every key leads to a position that holds a value, and no two
    /// keys lead to the same one.
    pub closed spec fn wf(&self) -> bool {
        let slots = text_map_entries(self.slots);
        &&& forall|key: Seq<char>| #[trigger]
            slots.dom().contains(key) ==> slots[key] < self.values.len()
        &&& forall|a: Seq<char>, b: Seq<char>|
            #[trigger] slots.dom().contains(a) && #[trigger] slots.dom().contains(b) && a != b
                ==> slots[a] != slots[b]
    }

    /// The table has an entry for the key.
    pub closed spec fn has(&self, key: Seq<char>) -> bool {
        text_map_entries(self.slots).dom().contains(key)
    }

    /// The value stored under the key.
    pub closed spec fn value(&self, key: Seq<char>) -> V {
        self.values@[text_map_entries(self.slots)[key] as int]
    }

    /// A table without entries.
    pub fn new() -> (table: TextTable<V>)
        ensures
            table.wf(),
            forall|key: Seq<char>| !table.has(key),
    {
        TextTable { slots: text_map_new(), values: Vec::new() }
    }

    /// The value stored under the key, if there is one.
    pub fn get(&self, key: &str) -> (r: Option<&V>)
        requires
            self.wf(),
        ensures
            self.has(key@) ==> r == Some(&self.value(key@)),
            !self.has(key@) ==> r is None,
    {
        match text_map_get(&self.slots, key) {
            Some(at) => {
                assert(text_map_entries(self.slots).dom().contains(key@));
                assert(at < self.values.len());
                Some(&self.values[at as usize])
            },
            None => None,
        }
    }

    /// Stores the value under the key, in place of the one that was
    /// there, if any.
    pub fn insert(&mut self, key: String, value: V)
        requires
            old(self).wf(),
        ensures
            final(self).wf(),
            final(self).has(key@),
            final(self).value(key@) == value,
            forall|other: Seq<char>|
                other != key@ ==> final(self).has(other) == old(self).has(other) && (old(
                    self,
                ).has(other) ==> final(self).value(other) == old(self).value(other)),
    {
        match text_map_get(&self.slots, key.as_str()) {
            Some(at) => {
                let ghost slots = text_map_entries(self.slots);
                assert(slots.dom().contains(key@));
                assert(at < self.values.len());
                self.values.set(at as usize, value);
                proof {
                    assert forall|other: Seq<char>| other != key@ && old(self).has(
                        other,
                    ) implies self.value(other) == old(self).value(other) by {
                        assert(slots.dom().contains(other));
                        assert(slots[other] != slots[key@]);
                    }
                }
            },
            None => {
                let at = self.values.len();
                self.values.push(value);
                text_map_insert(&mut self.slots, key, at as u64);
            },
        }
    }
}

impl<V> TextTable<Vec<V>> {
    /// Appends the item to the list stored under the key; a key without
    /// a list gets one that holds the item alone.
    pub fn append(&mut self, key: String, item: V)
        requires
            old(self).wf(),
        ensures
            final(self).wf(),
            final(self).has(key@),
            old(self).has(key@) ==> final(self).value(key@)@ == old(self).value(key@)@.push(item),
            !old(self).has(key@) ==> final(self).value(key@)@ == seq![item],
            forall|other: Seq<char>|
                other != key@ ==> final(self).has(other) == old(self).has(other) && (old(
                    self,
                ).has(other) ==> final(self).value(other) == old(self).value(other)),
    {
        match text_map_get(&self.slots, key.as_str()) {
            Some(at) => {
                let ghost slots = text_map_entries(self.slots);
                assert(slots.dom().contains(key@));
                assert(at < self.values.len());
                self.values[at as usize].push(item);
                proof {
                    assert forall|other: Seq<char>| other != key@ && old(self).has(
                        other,
                    ) implies self.value(other) == old(self).value(other) by {
                        assert(slots.dom().contains(other));
                        assert(slots[other] != slots[key@]);
                    }
                }
            },
            None => {
                let mut list: Vec<V> = Vec::new();
                list.push(item);
                self.insert(key, list);
            },
        }
    }
}

} // verus!
