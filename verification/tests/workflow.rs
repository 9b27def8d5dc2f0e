use serde_json::Value;
use workflow::memory::normalize::normalize_external_memory;
use workflow::memory::store::ExternalMemory;
use workflow::memory::types::{Entry, MemoryInputType};
use workflow::program::atomics::{Config, Edge, Task, TaskOutput};
use workflow::program::workflow::Workflow;

fn json(text: &str) -> Value {
    serde_json::from_str(text).unwrap()
}

fn task(id: &str, detail: &str) -> Task {
    Task { id: id.to_string(), detail: json(detail) }
}

fn edge(source: &str, detail: &str) -> Edge {
    Edge { source: source.to_string(), detail: json(detail) }
}

fn config() -> Config {
    Config { detail: json(r#"{"max_steps": 10}"#) }
}

fn output() -> TaskOutput {
    TaskOutput { detail: json(r#"{"task": "t2"}"#) }
}

fn seeded() -> ExternalMemory {
    let mut memory = ExternalMemory::new();
    memory.insert(
        "m1".to_string(),
        MemoryInputType::Entry(Entry::String("hello".to_string())),
    );
    memory
}

fn sample() -> Workflow {
    Workflow::new(
        vec![task("t1", r#"{"n": 1}"#), task("t2", r#"{"n": 2}"#)],
        vec![
            edge("t1", r#"{"target": "t2"}"#),
            edge("t1", r#"{"target": "t3"}"#),
            edge("t2", r#"{"target": "t1"}"#),
        ],
        config(),
        Some(seeded()),
        output(),
    )
}

#[test]
fn new_keeps_every_part() {
    let workflow = sample();
    assert_eq!(workflow.get_config(), &config());
    assert_eq!(workflow.get_return_value(), &output());
    assert_eq!(
        workflow.get_tasks(),
        &vec![task("t1", r#"{"n": 1}"#), task("t2", r#"{"n": 2}"#)]
    );
    assert_eq!(
        workflow.get_workflow(),
        &vec![
            edge("t1", r#"{"target": "t2"}"#),
            edge("t1", r#"{"target": "t3"}"#),
            edge("t2", r#"{"target": "t1"}"#),
        ]
    );
    let memory = workflow.get_external_memory().as_ref().unwrap();
    assert_eq!(memory.len(), 1);
    assert_eq!(
        memory.get("m1"),
        Some(&MemoryInputType::Entry(Entry::String("hello".to_string())))
    );
}

#[test]
fn new_accepts_empty_parts() {
    let workflow = Workflow::new(vec![], vec![], config(), None, output());
    assert!(workflow.get_tasks().is_empty());
    assert!(workflow.get_workflow().is_empty());
    assert!(workflow.get_external_memory().is_none());
    assert_eq!(workflow.get_step(0), None);
    assert_eq!(workflow.get_step_by_id("t1"), None);
    assert_eq!(workflow.get_tasks_by_id("t1"), None);
}

#[test]
fn workflow_without_seed_memory_has_none() {
    let memory = normalize_external_memory(None).unwrap();
    let workflow = Workflow::new(vec![], vec![], config(), memory, output());
    assert!(workflow.get_external_memory().is_none());
}

#[test]
fn task_by_id_finds_the_task() {
    let workflow = sample();
    assert_eq!(workflow.get_tasks_by_id("t2"), Some(&task("t2", r#"{"n": 2}"#)));
    assert_eq!(workflow.get_tasks_by_id("t1"), Some(&task("t1", r#"{"n": 1}"#)));
    assert_eq!(workflow.get_tasks_by_id("t9"), None);
    assert_eq!(workflow.get_tasks_by_id(""), None);
    assert_eq!(workflow.get_tasks_by_id("t"), None);
    assert_eq!(workflow.get_tasks_by_id("t22"), None);
}

#[test]
fn task_by_id_returns_the_first_of_equal_ids() {
    let workflow = Workflow::new(
        vec![
            task("a", r#""zero""#),
            task("b", r#""first""#),
            task("b", r#""second""#),
        ],
        vec![],
        config(),
        None,
        output(),
    );
    assert_eq!(workflow.get_tasks_by_id("b"), Some(&task("b", r#""first""#)));
}

#[test]
fn step_by_source_id_returns_the_first_of_two() {
    let workflow = sample();
    assert_eq!(
        workflow.get_step_by_id("t1"),
        Some(&edge("t1", r#"{"target": "t2"}"#))
    );
    assert_eq!(
        workflow.get_step_by_id("t2"),
        Some(&edge("t2", r#"{"target": "t1"}"#))
    );
    assert_eq!(workflow.get_step_by_id("t3"), None);
}

#[test]
fn step_at_index() {
    let workflow = sample();
    assert_eq!(workflow.get_step(0), Some(&edge("t1", r#"{"target": "t2"}"#)));
    assert_eq!(workflow.get_step(1), Some(&edge("t1", r#"{"target": "t3"}"#)));
    assert_eq!(workflow.get_step(2), Some(&edge("t2", r#"{"target": "t1"}"#)));
    assert_eq!(workflow.get_step(3), None);
    assert_eq!(workflow.get_step(usize::MAX), None);
}

#[test]
fn tasks_mut_changes_the_tasks_only() {
    let mut workflow = sample();
    {
        let tasks = workflow.get_tasks_mut();
        tasks[0].detail = json(r#"{"n": 100}"#);
        tasks.push(task("t3", r#"{"n": 3}"#));
        tasks.swap(0, 1);
    }
    assert_eq!(
        workflow.get_tasks(),
        &vec![
            task("t2", r#"{"n": 2}"#),
            task("t1", r#"{"n": 100}"#),
            task("t3", r#"{"n": 3}"#),
        ]
    );
    let untouched = sample();
    assert_eq!(workflow.get_config(), untouched.get_config());
    assert_eq!(workflow.get_workflow(), untouched.get_workflow());
    assert_eq!(workflow.get_return_value(), untouched.get_return_value());
    let memory = workflow.get_external_memory().as_ref().unwrap();
    assert_eq!(memory.entries(), seeded().entries());
    assert_eq!(workflow.get_tasks_by_id("t3"), Some(&task("t3", r#"{"n": 3}"#)));
}

#[test]
fn task_by_id_mut_changes_that_task_only() {
    let mut workflow = sample();
    {
        let found = workflow.get_tasks_by_id_mut("t2").unwrap();
        assert_eq!(found, &task("t2", r#"{"n": 2}"#));
        found.detail = json(r#"{"n": 22}"#);
    }
    assert!(workflow.get_tasks_by_id_mut("t9").is_none());
    assert_eq!(
        workflow.get_tasks(),
        &vec![task("t1", r#"{"n": 1}"#), task("t2", r#"{"n": 22}"#)]
    );
    let untouched = sample();
    assert_eq!(workflow.get_config(), untouched.get_config());
    assert_eq!(workflow.get_workflow(), untouched.get_workflow());
    assert_eq!(workflow.get_return_value(), untouched.get_return_value());
    assert_eq!(
        workflow.get_external_memory().as_ref().unwrap().entries(),
        seeded().entries()
    );
}

#[test]
fn task_by_id_mut_reaches_the_first_of_equal_ids() {
    let mut workflow = Workflow::new(
        vec![task("b", r#""first""#), task("b", r#""second""#)],
        vec![],
        config(),
        None,
        output(),
    );
    workflow.get_tasks_by_id_mut("b").unwrap().id = "c".to_string();
    assert_eq!(
        workflow.get_tasks(),
        &vec![task("c", r#""first""#), task("b", r#""second""#)]
    );
    assert_eq!(workflow.get_tasks_by_id("b"), Some(&task("b", r#""second""#)));
}
