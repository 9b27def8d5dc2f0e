//! The seeded memory of a workflow: a map from key to memory input, kept as
//! a list in which no key stands twice.

use crate::memory::types::{MemoryInputType, MemoryInputView, ID};
use crate::text::same_text;
use vstd::prelude::*;

verus! {

/// Whether no key stands twice in `entries`.
pub open spec fn keys_distinct(entries: Seq<(ID, MemoryInputType)>) -> bool {
    forall|i: int, j: int|
        0 <= i < j < entries.len() ==> (#[trigger] entries[i]).0@ != (#[trigger] entries[j]).0@
}

/// Whether `key` stands in `entries`.
pub open spec fn holds_key(entries: Seq<(ID, MemoryInputType)>, key: Seq<char>) -> bool {
    exists|i: int| 0 <= i < entries.len() && (#[trigger] entries[i]).0@ == key
}

/// A place in `entries` at which `key` stands, if it stands there at all.
pub open spec fn slot_of(entries: Seq<(ID, MemoryInputType)>, key: Seq<char>) -> int {
    choose|i: int| 0 <= i < entries.len() && (#[trigger] entries[i]).0@ == key
}

/// The map that `entries` lists: each key that stands in it, with the value
/// that stands beside it.
pub open spec fn listed_map(entries: Seq<(ID, MemoryInputType)>) -> Map<
    Seq<char>,
    MemoryInputView,
> {
    Map::new(
        |key: Seq<char>| holds_key(entries, key),
        |key: Seq<char>| entries[slot_of(entries, key)].1@,
    )
}

/// In a list without repeated keys, the key at place `i` is found at `i`,
/// and the listed map holds under it the value at `i`.
pub proof fn lemma_slot_of_key(entries: Seq<(ID, MemoryInputType)>, i: int)
    requires
        keys_distinct(entries),
        0 <= i < entries.len(),
    ensures
        holds_key(entries, entries[i].0@),
        slot_of(entries, entries[i].0@) == i,
        listed_map(entries).contains_key(entries[i].0@),
        listed_map(entries)[entries[i].0@] == entries[i].1@,
{
    let slot = slot_of(entries, entries[i].0@);
    assert(entries[slot].0@ == entries[i].0@);
}

/// Appending a key that is not there yet inserts it into the listed map.
proof fn lemma_push_inserts(entries: Seq<(ID, MemoryInputType)>, key: ID, value: MemoryInputType)
    requires
        keys_distinct(entries),
        !holds_key(entries, key@),
    ensures
        keys_distinct(entries.push((key, value))),
        listed_map(entries.push((key, value))) == listed_map(entries).insert(key@, value@),
{
    let grown = entries.push((key, value));
    let last = entries.len() as int;
    assert(keys_distinct(grown));
    assert forall|k: Seq<char>| holds_key(grown, k) <==> (k == key@ || holds_key(entries, k)) by {
        if holds_key(entries, k) {
            assert(grown[slot_of(entries, k)].0@ == k);
        }
        if k == key@ {
            assert(grown[last].0@ == k);
        }
    }
    assert forall|k: Seq<char>| holds_key(grown, k) implies listed_map(grown)[k] == (if k == key@ {
        value@
    } else {
        listed_map(entries)[k]
    }) by {
        let i = slot_of(grown, k);
        lemma_slot_of_key(grown, i);
        if i < last {
            lemma_slot_of_key(entries, i);
        }
    }
    assert(listed_map(grown) =~= listed_map(entries).insert(key@, value@));
}

/// Putting a new value beside the key that stands at place `at` updates the
/// listed map at that key.
proof fn lemma_update_inserts(
    entries: Seq<(ID, MemoryInputType)>,
    at: int,
    key: ID,
    value: MemoryInputType,
)
    requires
        keys_distinct(entries),
        0 <= at < entries.len(),
        entries[at].0@ == key@,
    ensures
        keys_distinct(entries.update(at, (key, value))),
        listed_map(entries.update(at, (key, value))) == listed_map(entries).insert(key@, value@),
{
    let changed = entries.update(at, (key, value));
    assert forall|i: int| 0 <= i < entries.len() implies (#[trigger] changed[i]).0@
        == entries[i].0@ by {}
    assert(keys_distinct(changed));
    assert forall|k: Seq<char>| holds_key(changed, k) <==> holds_key(entries, k) by {
        if holds_key(entries, k) {
            assert(changed[slot_of(entries, k)].0@ == k);
        }
        if holds_key(changed, k) {
            assert(entries[slot_of(changed, k)].0@ == k);
        }
    }
    assert(holds_key(entries, key@));
    assert forall|k: Seq<char>| holds_key(changed, k) implies listed_map(changed)[k] == (if k
        == key@ {
        value@
    } else {
        listed_map(entries)[k]
    }) by {
        let i = slot_of(changed, k);
        lemma_slot_of_key(changed, i);
        if i != at {
            lemma_slot_of_key(entries, i);
        }
    }
    assert(listed_map(changed) =~= listed_map(entries).insert(key@, value@));
}

/// A list without repeated keys lists a finite map with one key for each of
/// its places.
proof fn lemma_listed_len(entries: Seq<(ID, MemoryInputType)>)
    requires
        keys_distinct(entries),
    ensures
        listed_map(entries).dom().finite(),
        listed_map(entries).dom().len() == entries.len(),
    decreases entries.len(),
{
    if entries.len() == 0 {
        assert(listed_map(entries).dom() =~= Set::<Seq<char>>::empty());
    } else {
        let front = entries.drop_last();
        let (key, value) = entries.last();
        assert(keys_distinct(front));
        assert(!holds_key(front, key@));
        assert(front.push((key, value)) =~= entries);
        lemma_listed_len(front);
        lemma_push_inserts(front, key, value);
    }
}

/// The place at which `key` stands in `entries`, if it stands there.
fn place_of(entries: &Vec<(ID, MemoryInputType)>, key: &str) -> (at: Option<usize>)
    ensures
        match at {
            Some(i) => i < entries@.len() && entries@[i as int].0@ == key@,
            None => !holds_key(entries@, key@),
        },
{
    let mut i: usize = 0;
    while i < entries.len()
        invariant
            i <= entries@.len(),
            forall|j: int| 0 <= j < i ==> (#[trigger] entries@[j]).0@ != key@,
        decreases entries@.len() - i,
    {
        if same_text(entries[i].0.as_str(), key) {
            return Some(i);
        }
        i += 1;
    }
    None
}

/// The memory that a workflow starts with: for each key one memory input.
/// A key that is inserted again takes the new value.
#[derive(Debug)]
pub struct ExternalMemory {
    entries: Vec<(ID, MemoryInputType)>,
}

impl View for ExternalMemory {
    type V = Map<Seq<char>, MemoryInputView>;

    closed spec fn view(&self) -> Map<Seq<char>, MemoryInputView> {
        listed_map(self.entries@)
    }
}

impl ExternalMemory {
    #[verifier::type_invariant]
    spec fn no_key_twice(&self) -> bool {
        keys_distinct(self.entries@)
    }

    /// A memory without keys.
    pub fn new() -> (memory: Self)
        ensures
            memory@ == Map::<Seq<char>, MemoryInputView>::empty(),
    {
        let memory = ExternalMemory { entries: Vec::new() };
        assert(memory@ =~= Map::<Seq<char>, MemoryInputView>::empty());
        memory
    }

    /// The number of keys.
    pub fn len(&self) -> (n: usize)
        ensures
            self@.dom().finite(),
            n == self@.dom().len(),
    {
        proof {
            use_type_invariant(self);
            lemma_listed_len(self.entries@);
        }
        self.entries.len()
    }

    /// The value under `key`, if the memory holds the key.
    pub fn get(&self, key: &str) -> (found: Option<&MemoryInputType>)
        ensures
            match found {
                Some(value) => self@.contains_key(key@) && self@[key@] == value@,
                None => !self@.contains_key(key@),
            },
    {
        proof {
            use_type_invariant(self);
        }
        match place_of(&self.entries, key) {
            Some(i) => {
                proof {
                    lemma_slot_of_key(self.entries@, i as int);
                }
                Some(&self.entries[i].1)
            },
            None => None,
        }
    }

    /// Puts `value` under `key`, in place of the value that the key had, if
    /// it had one.
    pub fn insert(&mut self, key: ID, value: MemoryInputType)
        ensures
            final(self)@ == old(self)@.insert(key@, value@),
    {
        proof {
            use_type_invariant(&*self);
        }
        let mut entries: Vec<(ID, MemoryInputType)> = Vec::new();
        std::mem::swap(&mut entries, &mut self.entries);
        let at = place_of(&entries, key.as_str());
        match at {
            Some(i) => {
                proof {
                    lemma_update_inserts(entries@, i as int, key, value);
                }
                entries.set(i, (key, value));
            },
            None => {
                proof {
                    lemma_push_inserts(entries@, key, value);
                }
                entries.push((key, value));
            },
        }
        self.entries = entries;
    }

    /// The keys with their values, each key once.
    pub fn entries(&self) -> (listed: &Vec<(ID, MemoryInputType)>)
        ensures
            keys_distinct(listed@),
            self@ == listed_map(listed@),
    {
        proof {
            use_type_invariant(self);
        }
        &self.entries
    }
}

} // verus!
