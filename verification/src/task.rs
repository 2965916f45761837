//! Tasks: units of work performed while a token sits on a flow object.

use vstd::prelude::*;

verus! {

/// The kind of a task, without its payload.
#[derive(Clone, Copy, PartialEq, Eq, Structural, Debug)]
pub enum Type {
    UserTask,
    ServiceTask,
    ScriptTask,
}

/// A task definition: a display name and its kind.
#[derive(Clone, PartialEq, Debug)]
pub struct Task {
    pub name: String,
    pub task_type: Type,
}

impl Task {
    /// Builds a task from a name and a kind.
    pub fn new(name: &str, task_type: Type) -> (r: Self)
        ensures
            r.name@ == name@,
            r.task_type == task_type,
    {
        Task { name: String::from_str(name), task_type }
    }

    /// Returns the kind of the task.
    pub fn task_type(&self) -> (r: &Type)
        ensures
            *r == self.task_type,
    {
        &self.task_type
    }
}

/// A task together with its kind tag.
#[derive(Clone, PartialEq, Debug)]
pub enum TaskType {
    UserTask(Task),
    ServiceTask(Task),
    ScriptTask(Task),
}

/// A task is automatic when the engine can run it without external input:
/// service and script tasks are automatic, user tasks are not.
pub fn is_automatic_task(task_type: &TaskType) -> (r: bool)
    ensures
        r <==> !(task_type is UserTask),
{
    match task_type {
        TaskType::ServiceTask(_) => true,
        TaskType::ScriptTask(_) => true,
        TaskType::UserTask(_) => false,
    }
}

} // verus!
