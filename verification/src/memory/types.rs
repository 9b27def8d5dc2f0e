//! The values that seed memory is made of.

use serde_json::Value;
use vstd::prelude::*;

verus! {

/// Key of a task or of a memory slot.
pub type ID = String;

/// One atomic unit of seed memory: raw text, or a structured JSON value that
/// is stored and handed on without being looked into.
#[derive(Debug, Clone, PartialEq)]
pub enum Entry {
    String(String),
    Json(Value),
}

/// What an [`Entry`] holds.
pub enum EntryView {
    String(Seq<char>),
    Json(Value),
}

impl View for Entry {
    type V = EntryView;

    open spec fn view(&self) -> EntryView {
        match self {
            Entry::String(text) => EntryView::String(text@),
            Entry::Json(value) => EntryView::Json(*value),
        }
    }
}

/// What one memory key is seeded with: a single entry, or a page, which is a
/// sequence of entries whose order matters.
#[derive(Debug, Clone, PartialEq)]
pub enum MemoryInputType {
    Entry(Entry),
    Page(Vec<Entry>),
}

/// What a [`MemoryInputType`] holds.
pub enum MemoryInputView {
    Entry(EntryView),
    Page(Seq<EntryView>),
}

/// What the entries of a page hold, in the order of the page.
pub open spec fn page_view(page: Seq<Entry>) -> Seq<EntryView> {
    Seq::new(page.len(), |i: int| page[i]@)
}

impl View for MemoryInputType {
    type V = MemoryInputView;

    open spec fn view(&self) -> MemoryInputView {
        match self {
            MemoryInputType::Entry(entry) => MemoryInputView::Entry(entry@),
            MemoryInputType::Page(page) => MemoryInputView::Page(page_view(page@)),
        }
    }
}

} // verus!
