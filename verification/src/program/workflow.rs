//! The workflow: its tasks and steps, its configuration, the memory it is
//! seeded with and the value it returns.

use crate::memory::store::ExternalMemory;
use crate::memory::types::MemoryInputView;
use crate::program::atomics::{Config, Edge, Task, TaskOutput};
use crate::text::same_text;
use vstd::prelude::*;

verus! {

/// Whether `at` is the first place in `tasks` whose task has the id `id`.
pub open spec fn first_task_with_id(tasks: Seq<Task>, id: Seq<char>, at: int) -> bool {
    &&& 0 <= at < tasks.len()
    &&& tasks[at].id@ == id
    &&& forall|j: int| 0 <= j < at ==> (#[trigger] tasks[j]).id@ != id
}

/// Whether no task in `tasks` has the id `id`.
pub open spec fn no_task_with_id(tasks: Seq<Task>, id: Seq<char>) -> bool {
    forall|j: int| 0 <= j < tasks.len() ==> (#[trigger] tasks[j]).id@ != id
}

/// Whether `at` is the first place in `steps` whose edge leaves the task
/// with the id `id`.
pub open spec fn first_step_from(steps: Seq<Edge>, id: Seq<char>, at: int) -> bool {
    &&& 0 <= at < steps.len()
    &&& steps[at].source@ == id
    &&& forall|j: int| 0 <= j < at ==> (#[trigger] steps[j]).source@ != id
}

/// Whether no edge in `steps` leaves the task with the id `id`.
pub open spec fn no_step_from(steps: Seq<Edge>, id: Seq<char>) -> bool {
    forall|j: int| 0 <= j < steps.len() ==> (#[trigger] steps[j]).source@ != id
}

/// The first task with a given id is one task: two places that are both the
/// first with the id are the same place.
pub proof fn lemma_first_task_is_unique(tasks: Seq<Task>, id: Seq<char>, a: int, b: int)
    requires
        first_task_with_id(tasks, id, a),
        first_task_with_id(tasks, id, b),
    ensures
        a == b,
{
}

/// The first step that leaves a given task is one step: two places that are
/// both the first for the id are the same place.
pub proof fn lemma_first_step_is_unique(steps: Seq<Edge>, id: Seq<char>, a: int, b: int)
    requires
        first_step_from(steps, id, a),
        first_step_from(steps, id, b),
    ensures
        a == b,
{
}

/// What a [`Workflow`] holds.
pub struct WorkflowView {
    pub config: Config,
    pub external_memory: Option<Map<Seq<char>, MemoryInputView>>,
    pub tasks: Seq<Task>,
    pub steps: Seq<Edge>,
    pub return_value: TaskOutput,
}

/// What an optional memory holds.
pub open spec fn memory_view(memory: Option<ExternalMemory>) -> Option<
    Map<Seq<char>, MemoryInputView>,
> {
    match memory {
        Some(m) => Some(m@),
        None => None,
    }
}

/// Workflow serves as a container for the tasks and steps that make up a
/// workflow. Tasks and steps are kept in the order in which they were given.
/// Once made, a workflow changes in its tasks only.
#[derive(Debug)]
pub struct Workflow {
    config: Config,
    external_memory: Option<ExternalMemory>,
    tasks: Vec<Task>,
    steps: Vec<Edge>,
    return_value: TaskOutput,
}

impl View for Workflow {
    type V = WorkflowView;

    closed spec fn view(&self) -> WorkflowView {
        WorkflowView {
            config: self.config,
            external_memory: memory_view(self.external_memory),
            tasks: self.tasks@,
            steps: self.steps@,
            return_value: self.return_value,
        }
    }
}

impl Workflow {
    /// A workflow made of the given parts. Nothing is checked.
    pub fn new(
        tasks: Vec<Task>,
        steps: Vec<Edge>,
        config: Config,
        external_memory: Option<ExternalMemory>,
        return_value: TaskOutput,
    ) -> (workflow: Self)
        ensures
            workflow@ == (WorkflowView {
                config,
                external_memory: memory_view(external_memory),
                tasks: tasks@,
                steps: steps@,
                return_value,
            }),
    {
        Workflow { config, external_memory, tasks, steps, return_value }
    }

    /// Returns a reference to the configuration of the workflow.
    pub fn get_config(&self) -> (config: &Config)
        ensures
            *config == self@.config,
    {
        &self.config
    }

    /// Returns a reference to the memory that the workflow is seeded with,
    /// if it is seeded with any.
    pub fn get_external_memory(&self) -> (memory: &Option<ExternalMemory>)
        ensures
            memory_view(*memory) == self@.external_memory,
    {
        &self.external_memory
    }

    /// Returns a reference to the tasks of the workflow.
    pub fn get_tasks(&self) -> (tasks: &Vec<Task>)
        ensures
            tasks@ == self@.tasks,
    {
        &self.tasks
    }

    /// Returns a mutable reference to the tasks of the workflow. What is
    /// done through it changes the tasks and nothing else.
    pub fn get_tasks_mut(&mut self) -> (tasks: &mut Vec<Task>)
        ensures
            tasks@ == old(self)@.tasks,
            final(self)@ == (WorkflowView { tasks: final(tasks)@, ..old(self)@ }),
    {
        &mut self.tasks
    }

    /// Returns a reference to the steps of the workflow.
    pub fn get_workflow(&self) -> (steps: &Vec<Edge>)
        ensures
            steps@ == self@.steps,
    {
        &self.steps
    }

    /// Returns a reference to the return value of the workflow.
    pub fn get_return_value(&self) -> (value: &TaskOutput)
        ensures
            *value == self@.return_value,
    {
        &self.return_value
    }

    /// Returns a reference to the step at the specified index, if there is
    /// one.
    pub fn get_step(&self, index: usize) -> (step: Option<&Edge>)
        ensures
            match step {
                Some(edge) => index < self@.steps.len() && *edge == self@.steps[index as int],
                None => index >= self@.steps.len(),
            },
    {
        if index < self.steps.len() {
            Some(&self.steps[index])
        } else {
            None
        }
    }

    /// Returns a reference to the first step that leaves the task with the
    /// specified id, if there is one.
    pub fn get_step_by_id(&self, task_id: &str) -> (step: Option<&Edge>)
        ensures
            match step {
                Some(edge) => exists|at: int|
                    first_step_from(self@.steps, task_id@, at) && *edge == self@.steps[at],
                None => no_step_from(self@.steps, task_id@),
            },
    {
        let mut i: usize = 0;
        while i < self.steps.len()
            invariant
                i <= self.steps@.len(),
                forall|j: int| 0 <= j < i ==> (#[trigger] self.steps@[j]).source@ != task_id@,
            decreases self.steps@.len() - i,
        {
            if same_text(self.steps[i].source.as_str(), task_id) {
                assert(first_step_from(self@.steps, task_id@, i as int));
                return Some(&self.steps[i]);
            }
            i += 1;
        }
        None
    }

    /// Returns a reference to the first task with the specified id, if
    /// there is one.
    pub fn get_tasks_by_id(&self, task_id: &str) -> (task: Option<&Task>)
        ensures
            match task {
                Some(found) => exists|at: int|
                    first_task_with_id(self@.tasks, task_id@, at) && *found == self@.tasks[at],
                None => no_task_with_id(self@.tasks, task_id@),
            },
    {
        match self.place_of_task(task_id) {
            Some(i) => Some(&self.tasks[i]),
            None => None,
        }
    }

    /// Returns a mutable reference to the first task with the specified id,
    /// if there is one. What is done through it changes that task and
    /// nothing else.
    pub fn get_tasks_by_id_mut(&mut self, task_id: &str) -> (task: Option<&mut Task>)
        ensures
            match task {
                Some(found) => exists|at: int|
                    first_task_with_id(old(self)@.tasks, task_id@, at) && *found == old(
                        self,
                    )@.tasks[at] && final(self)@ == (WorkflowView {
                        tasks: old(self)@.tasks.update(at, *final(found)),
                        ..old(self)@
                    }),
                None => no_task_with_id(old(self)@.tasks, task_id@) && final(self)@ == old(self)@,
            },
    {
        match self.place_of_task(task_id) {
            Some(i) => Some(&mut self.tasks[i]),
            None => None,
        }
    }

    /// The first place at which a task with the id `task_id` stands.
    fn place_of_task(&self, task_id: &str) -> (place: Option<usize>)
        ensures
            match place {
                Some(at) => first_task_with_id(self@.tasks, task_id@, at as int),
                None => no_task_with_id(self@.tasks, task_id@),
            },
    {
        let mut i: usize = 0;
        while i < self.tasks.len()
            invariant
                i <= self.tasks@.len(),
                forall|j: int| 0 <= j < i ==> (#[trigger] self.tasks@[j]).id@ != task_id@,
            decreases self.tasks@.len() - i,
        {
            if same_text(self.tasks[i].id.as_str(), task_id) {
                return Some(i);
            }
            i += 1;
        }
        None
    }
}

} // verus!
