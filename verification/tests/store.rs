use workflow::memory::store::ExternalMemory;
use workflow::memory::types::{Entry, MemoryInputType};

fn text(value: &str) -> MemoryInputType {
    MemoryInputType::Entry(Entry::String(value.to_string()))
}

#[test]
fn new_memory_is_empty() {
    let memory = ExternalMemory::new();
    assert_eq!(memory.len(), 0);
    assert_eq!(memory.get("a"), None);
    assert!(memory.entries().is_empty());
}

#[test]
fn inserted_value_is_found_under_its_key_only() {
    let mut memory = ExternalMemory::new();
    memory.insert("a".to_string(), text("1"));
    memory.insert("ab".to_string(), text("2"));
    assert_eq!(memory.len(), 2);
    assert_eq!(memory.get("a"), Some(&text("1")));
    assert_eq!(memory.get("ab"), Some(&text("2")));
    assert_eq!(memory.get("b"), None);
    assert_eq!(memory.get(""), None);
    assert_eq!(memory.get("A"), None);
}

#[test]
fn last_write_wins() {
    let mut memory = ExternalMemory::new();
    memory.insert("a".to_string(), text("1"));
    memory.insert("b".to_string(), text("2"));
    memory.insert("a".to_string(), text("3"));
    assert_eq!(memory.len(), 2);
    assert_eq!(memory.get("a"), Some(&text("3")));
    assert_eq!(memory.get("b"), Some(&text("2")));
}

#[test]
fn entries_list_each_key_once() {
    let mut memory = ExternalMemory::new();
    memory.insert("a".to_string(), text("1"));
    memory.insert("b".to_string(), MemoryInputType::Page(vec![]));
    memory.insert("a".to_string(), text("3"));
    let mut listed: Vec<(String, MemoryInputType)> = memory.entries().clone();
    listed.sort_by(|left, right| left.0.cmp(&right.0));
    assert_eq!(
        listed,
        vec![
            ("a".to_string(), text("3")),
            ("b".to_string(), MemoryInputType::Page(vec![])),
        ]
    );
}

#[test]
fn empty_key_is_a_key() {
    let mut memory = ExternalMemory::new();
    memory.insert(String::new(), text("empty"));
    assert_eq!(memory.len(), 1);
    assert_eq!(memory.get(""), Some(&text("empty")));
    assert_eq!(memory.get(" "), None);
}
