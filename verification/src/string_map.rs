//! A map from text to text: the labels and the annotations of an object.
use vstd::prelude::*;

use crate::sorted::{ascending, find_slot, has_key, lemma_insert_keeps_order, Keyed};

verus! {

/// One key with its value.
#[derive(Debug)]
pub struct Entry {
    pub key: String,
    pub value: String,
}

impl Keyed for Entry {
    open spec fn key(&self) -> Seq<char> {
        self.key@
    }

    fn key_text(&self) -> (r: &str) {
        self.key.as_str()
    }
}

impl Clone for Entry {
    fn clone(&self) -> (r: Self)
        ensures
            r == *self,
    {
        Entry { key: self.key.clone(), value: self.value.clone() }
    }
}

/// A map from text to text, in the order of its keys.
#[derive(Debug)]
pub struct StringMap {
    entries: Vec<Entry>,
}

/// Where the entry with this key stands.
pub open spec fn slot_of(entries: Seq<Entry>, key: Seq<char>) -> int {
    choose|i: int| 0 <= i < entries.len() && #[trigger] entries[i].key() == key
}

/// The map that `entries` stand for.
pub open spec fn map_of(entries: Seq<Entry>) -> Map<Seq<char>, Seq<char>> {
    Map::new(
        |key: Seq<char>| has_key(entries, key),
        |key: Seq<char>| entries[slot_of(entries, key)].value@,
    )
}

/// In ascending entries the entry with a key is the only one.
proof fn lemma_slot_of(entries: Seq<Entry>, at: int)
    requires
        ascending(entries),
        0 <= at < entries.len(),
    ensures
        slot_of(entries, entries[at].key()) == at,
        map_of(entries).contains_key(entries[at].key()),
        map_of(entries)[entries[at].key()] == entries[at].value@,
{
    broadcast use crate::text::group_text_order;

    let key = entries[at].key();
    assert(has_key(entries, key));
    let found = slot_of(entries, key);
    assert(0 <= found < entries.len() && entries[found].key() == key);
}

impl DeepView for StringMap {
    type V = Map<Seq<char>, Seq<char>>;

    closed spec fn deep_view(&self) -> Map<Seq<char>, Seq<char>> {
        map_of(self.entries@)
    }
}

impl StringMap {
    #[verifier::type_invariant]
    spec fn well_formed(self) -> bool {
        ascending(self.entries@)
    }

    /// The map with no keys.
    pub fn new() -> (r: StringMap)
        ensures
            r.deep_view() == Map::<Seq<char>, Seq<char>>::empty(),
    {
        let r = StringMap { entries: Vec::new() };
        assert(r.deep_view() =~= Map::<Seq<char>, Seq<char>>::empty());
        r
    }

    /// The entries, in the order of their keys.
    pub fn entries(&self) -> (r: &Vec<Entry>)
        ensures
            ascending(r@),
            map_of(r@) == self.deep_view(),
            forall|i: int|
                0 <= i < r@.len() ==> self.deep_view().contains_key((#[trigger] r@[i]).key@)
                    && self.deep_view()[r@[i].key@] == r@[i].value@,
            forall|key: Seq<char>| #[trigger]
                self.deep_view().contains_key(key) ==> exists|i: int|
                    0 <= i < r@.len() && (#[trigger] r@[i]).key@ == key,
    {
        proof {
            use_type_invariant(self);
            assert forall|i: int|
                0 <= i < self.entries@.len() implies self.deep_view().contains_key(
                (#[trigger] self.entries@[i]).key@,
            ) && self.deep_view()[self.entries@[i].key@] == self.entries@[i].value@ by {
                lemma_slot_of(self.entries@, i);
            }
            assert forall|key: Seq<char>| #[trigger]
                self.deep_view().contains_key(key) implies exists|i: int|
                0 <= i < self.entries@.len() && (#[trigger] self.entries@[i]).key@ == key by {
                let i = slot_of(self.entries@, key);
                assert(self.entries@[i].key() == key);
            }
        }
        &self.entries
    }

    /// The value for `key`.
    pub fn get(&self, key: &str) -> (r: Option<&str>)
        ensures
            r.deep_view() == if self.deep_view().contains_key(key@) {
                Some(self.deep_view()[key@])
            } else {
                None
            },
    {
        proof {
            use_type_invariant(self);
        }
        let (at, found) = find_slot(&self.entries, key);
        if found {
            proof {
                lemma_slot_of(self.entries@, at as int);
            }
            Some(self.entries[at].value.as_str())
        } else {
            None
        }
    }

    /// Gives `key` the value `value`, in place of any value it had.
    pub fn insert(&mut self, key: String, value: String)
        ensures
            final(self).deep_view() == old(self).deep_view().insert(key@, value@),
    {
        proof {
            use_type_invariant(&*self);
        }
        let mut entries: Vec<Entry> = Vec::new();
        std::mem::swap(&mut entries, &mut self.entries);
        let ghost before = entries@;
        let (at, found) = find_slot(&entries, key.as_str());
        let entry = Entry { key, value };
        if found {
            entries.set(at, entry);
            assert(entries@ == before.update(at as int, entry));
        } else {
            entries.insert(at, entry);
            proof {
                lemma_insert_keeps_order(before, at as int, entry);
            }
        }
        proof {
            lemma_put(before, entries@, at as int, entry, found);
        }
        self.entries = entries;
    }
}

/// Replacing the entry with a key, or inserting one, is an insertion into the map.
proof fn lemma_put(
    before: Seq<Entry>,
    after: Seq<Entry>,
    at: int,
    entry: Entry,
    found: bool,
)
    requires
        ascending(before),
        ascending(after),
        0 <= at <= before.len(),
        found ==> at < before.len() && before[at].key() == entry.key() && after == before.update(
            at,
            entry,
        ),
        !found ==> after == before.insert(at, entry),
    ensures
        map_of(after) == map_of(before).insert(entry.key(), entry.value@),
{
    let old_map = map_of(before);
    let new_map = map_of(after);
    lemma_slot_of(after, at);
    assert forall|key: Seq<char>|
        new_map.contains_key(key) == old_map.insert(entry.key(), entry.value@).contains_key(
            key,
        ) by {
        if has_key(after, key) && key != entry.key() {
            let i = slot_of(after, key);
            if found {
                assert(before[i].key() == key);
            } else if i < at {
                assert(before[i].key() == key);
            } else {
                assert(before[i - 1].key() == key);
            }
        }
        if has_key(before, key) {
            let i = slot_of(before, key);
            if found {
                assert(after[i].key() == key);
            } else if i < at {
                assert(after[i].key() == key);
            } else {
                assert(after[i + 1].key() == key);
            }
        }
    }
    assert forall|key: Seq<char>| new_map.contains_key(key) implies new_map[key] == old_map.insert(
        entry.key(),
        entry.value@,
    )[key] by {
        if key != entry.key() {
            let i = slot_of(after, key);
            assert(after[i].key() == key);
            lemma_slot_of(after, i);
            let j = if found || i < at { i } else { i - 1 };
            assert(before[j] == after[i]);
            lemma_slot_of(before, j);
        }
    }
    assert(new_map =~= old_map.insert(entry.key(), entry.value@));
}

impl Default for StringMap {
    fn default() -> (r: Self)
        ensures
            r.deep_view() == Map::<Seq<char>, Seq<char>>::empty(),
    {
        StringMap::new()
    }
}

impl Clone for StringMap {
    fn clone(&self) -> (r: Self)
        ensures
            r.deep_view() == self.deep_view(),
    {
        proof {
            use_type_invariant(self);
        }
        let entries = self.entries.clone();
        assert(entries@ =~= self.entries@);
        StringMap { entries }
    }
}

} // verus!
