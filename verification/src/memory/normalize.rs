//! Turning the loosely typed seed memory of a workflow document into the
//! closed form that the workflow holds.
//!
//! The seed memory is a JSON object. Under each key stands a string, an
//! object, or an array of strings and objects. A string becomes a text
//! entry, an object becomes a JSON entry, an array becomes a page with one
//! entry for each element, in the order of the array. Any other value under
//! any key refuses the whole memory.

use crate::json::{json_shape, object_entries, object_members, JsonShape};
use crate::memory::store::ExternalMemory;
use crate::memory::types::{page_view, Entry, EntryView, MemoryInputType, MemoryInputView, ID};
use serde_json::Value;
use vstd::prelude::*;

verus! {

/// Why seed memory was refused.
#[derive(Debug, PartialEq, Eq)]
pub enum MemoryError {
    /// The seed memory is not a JSON object.
    ExpectedMap,
    /// The value under `key` is neither a string, nor an object, nor an
    /// array of strings and objects.
    InvalidEntry { key: ID },
}

impl MemoryError {
    /// The text of [`MemoryError::message`].
    pub open spec fn message_text(&self) -> Seq<char> {
        match self {
            MemoryError::ExpectedMap => "Expected a map"@,
            MemoryError::InvalidEntry { .. } => "Invalid entry format"@,
        }
    }

    /// A description of the error for a reader.
    pub fn message(&self) -> (text: String)
        ensures
            text@ == self.message_text(),
    {
        match self {
            MemoryError::ExpectedMap => "Expected a map".to_owned(),
            MemoryError::InvalidEntry { .. } => "Invalid entry format".to_owned(),
        }
    }
}

/// The entry that a JSON value stands for: a string gives its text, an
/// object is kept whole, and no other value stands for an entry.
pub open spec fn entry_of(value: Value) -> Option<EntryView> {
    match json_shape(value) {
        JsonShape::Text(text) => Some(EntryView::String(text)),
        JsonShape::Object(_) => Some(EntryView::Json(value)),
        _ => None,
    }
}

/// The page that the elements of a JSON array stand for: the entry of each
/// element, in the order of the array, provided that each element stands for
/// an entry.
pub open spec fn page_of(items: Seq<Value>) -> Option<Seq<EntryView>> {
    if forall|i: int| 0 <= i < items.len() ==> (#[trigger] entry_of(items[i])) is Some {
        Some(Seq::new(items.len(), |i: int| entry_of(items[i])->0))
    } else {
        None
    }
}

/// The memory input that a JSON value stands for: an array gives a page,
/// a string or an object gives a single entry, and no other value stands for
/// a memory input.
pub open spec fn memory_input_of(value: Value) -> Option<MemoryInputView> {
    match json_shape(value) {
        JsonShape::Array(items) => match page_of(items) {
            Some(page) => Some(MemoryInputView::Page(page)),
            None => None,
        },
        _ => match entry_of(value) {
            Some(entry) => Some(MemoryInputView::Entry(entry)),
            None => None,
        },
    }
}

/// The memory that the members of a JSON object stand for: under each key
/// the memory input of the member, provided that each member stands for one.
pub open spec fn memory_of(members: Map<Seq<char>, Value>) -> Option<
    Map<Seq<char>, MemoryInputView>,
> {
    if forall|key: Seq<char>|
        members.contains_key(key) ==> (#[trigger] memory_input_of(members[key])) is Some {
        Some(
            Map::new(
                |key: Seq<char>| members.contains_key(key),
                |key: Seq<char>| memory_input_of(members[key])->0,
            ),
        )
    } else {
        None
    }
}

/// The text of a JSON string is kept as it is: such a value stands for a
/// text entry that holds exactly the characters of the string, under a key
/// of the seed memory as well as inside an array.
pub proof fn lemma_text_is_kept(value: Value, text: Seq<char>)
    requires
        json_shape(value) == JsonShape::Text(text),
    ensures
        entry_of(value) == Some(EntryView::String(text)),
        memory_input_of(value) == Some(MemoryInputView::Entry(EntryView::String(text))),
{
}

/// A JSON object is kept whole: such a value stands for a JSON entry that
/// holds the value itself.
pub proof fn lemma_object_is_kept(value: Value)
    requires
        json_shape(value) is Object,
    ensures
        entry_of(value) == Some(EntryView::Json(value)),
        memory_input_of(value) == Some(MemoryInputView::Entry(EntryView::Json(value))),
{
}

/// A page keeps the order of its array: an array whose elements all stand
/// for entries stands for a page of the same length, and the entry at each
/// place of the page is the entry of the element at that place of the array.
pub proof fn lemma_page_keeps_order(value: Value, items: Seq<Value>)
    requires
        json_shape(value) == JsonShape::Array(items),
        forall|i: int| 0 <= i < items.len() ==> (#[trigger] entry_of(items[i])) is Some,
    ensures
        memory_input_of(value) matches Some(MemoryInputView::Page(page)) && page.len()
            == items.len() && forall|i: int|
            0 <= i < items.len() ==> #[trigger] page[i] == entry_of(items[i])->0,
{
}

/// One element that stands for no entry refuses the whole array.
pub proof fn lemma_invalid_element_refuses_page(value: Value, items: Seq<Value>, at: int)
    requires
        json_shape(value) == JsonShape::Array(items),
        0 <= at < items.len(),
        entry_of(items[at]) is None,
    ensures
        memory_input_of(value) is None,
{
}

/// The memory is all or nothing: one member that stands for no memory input
/// refuses the whole memory, whatever the other members are.
pub proof fn lemma_invalid_member_refuses_all(members: Map<Seq<char>, Value>, key: Seq<char>)
    requires
        members.contains_key(key),
        memory_input_of(members[key]) is None,
    ensures
        memory_of(members) is None,
{
}

/// A memory that is accepted has exactly the keys of the object, and under
/// each key the memory input of the member under that key.
pub proof fn lemma_accepted_memory_is_whole(
    members: Map<Seq<char>, Value>,
    memory: Map<Seq<char>, MemoryInputView>,
)
    requires
        memory_of(members) == Some(memory),
    ensures
        memory.dom() == members.dom(),
        forall|key: Seq<char>|
            members.contains_key(key) ==> memory_input_of(members[key]) == Some(
                #[trigger] memory[key],
            ),
{
}

/// The entry that `value` stands for, if it stands for one.
pub fn entry_from_json(value: &Value) -> (entry: Option<Entry>)
    ensures
        match entry {
            Some(e) => entry_of(*value) == Some(e@),
            None => entry_of(*value) is None,
        },
{
    if let Some(text) = value.as_str() {
        Some(Entry::String(text.to_owned()))
    } else if value.is_object() {
        Some(Entry::Json(value.clone()))
    } else {
        None
    }
}

/// The page that `items` stand for, if each of them stands for an entry.
pub fn page_from_json(items: &Vec<Value>) -> (page: Option<Vec<Entry>>)
    ensures
        match page {
            Some(p) => page_of(items@) == Some(page_view(p@)),
            None => page_of(items@) is None,
        },
{
    let mut page: Vec<Entry> = Vec::new();
    let mut i: usize = 0;
    while i < items.len()
        invariant
            i <= items@.len(),
            page@.len() == i,
            forall|j: int| 0 <= j < i ==> (#[trigger] entry_of(items@[j])) == Some(page@[j]@),
        decreases items@.len() - i,
    {
        match entry_from_json(&items[i]) {
            Some(entry) => {
                page.push(entry);
            },
            None => {
                return None;
            },
        }
        i += 1;
    }
    Some(page)
}

/// The memory input that `value` stands for, if it stands for one.
pub fn memory_input_from_json(value: &Value) -> (input: Option<MemoryInputType>)
    ensures
        match input {
            Some(m) => memory_input_of(*value) == Some(m@),
            None => memory_input_of(*value) is None,
        },
{
    if let Some(items) = value.as_array() {
        match page_from_json(items) {
            Some(page) => Some(MemoryInputType::Page(page)),
            None => None,
        }
    } else {
        match entry_from_json(value) {
            Some(entry) => Some(MemoryInputType::Entry(entry)),
            None => None,
        }
    }
}

/// Normalizes the seed memory of a workflow document.
///
/// No value gives no memory. A JSON object gives the memory that its members
/// stand for, or, if a member stands for no memory input, an error that
/// names the key of one such member. Any other value is refused as not being
/// a map. Either the whole memory is returned or none of it.
pub fn normalize_external_memory(value: Option<Value>) -> (result: Result<
    Option<ExternalMemory>,
    MemoryError,
>)
    ensures
        match value {
            None => result matches Ok(None),
            Some(v) => match json_shape(v) {
                JsonShape::Object(members) => match result {
                    Ok(Some(memory)) => memory_of(members) == Some(memory@),
                    Ok(None) => false,
                    Err(MemoryError::ExpectedMap) => false,
                    Err(MemoryError::InvalidEntry { key }) => members.contains_key(key@)
                        && memory_input_of(members[key@]) is None,
                },
                _ => result matches Err(MemoryError::ExpectedMap),
            },
        },
{
    let seed = match value {
        Some(seed) => seed,
        None => {
            return Ok(None);
        },
    };
    let object = match seed.as_object() {
        Some(object) => object,
        None => {
            return Err(MemoryError::ExpectedMap);
        },
    };
    let ghost members = object_members(*object);
    let entries = object_entries(object);
    let mut memory = ExternalMemory::new();
    let mut i: usize = 0;
    while i < entries.len()
        invariant
            i <= entries@.len(),
            value == Some(seed),
            json_shape(seed) == JsonShape::Object(members),
            forall|j: int|
                0 <= j < entries@.len() ==> members.contains_key((#[trigger] entries@[j]).0@)
                    && members[entries@[j].0@] == *entries@[j].1,
            forall|j: int| 0 <= j < i ==> memory@.contains_key((#[trigger] entries@[j]).0@),
            forall|key: Seq<char>| #[trigger]
                memory@.contains_key(key) ==> members.contains_key(key) && memory_input_of(
                    members[key],
                ) == Some(memory@[key]),
        decreases entries@.len() - i,
    {
        let (key, member) = entries[i];
        match memory_input_from_json(member) {
            Some(input) => {
                memory.insert(key.clone(), input);
            },
            None => {
                return Err(MemoryError::InvalidEntry { key: key.clone() });
            },
        }
        i += 1;
    }
    proof {
        assert forall|key: Seq<char>| members.contains_key(key) implies memory@.contains_key(
            key,
        ) by {
            let j = choose|j: int| 0 <= j < entries@.len() && (#[trigger] entries@[j]).0@ == key;
            assert(memory@.contains_key(entries@[j].0@));
        }
        assert(memory@.dom() =~= members.dom());
    }
    Ok(Some(memory))
}

} // verus!
