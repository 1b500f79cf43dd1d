//! A single to-do item and its mathematical model.

use vstd::prelude::*;

verus! {

/// What a task is in contracts: its identifier and the characters of its text.
pub struct TaskView {
    pub id: nat,
    pub text: Seq<char>,
}

/// A user-entered to-do item with an integer identifier and a text body.
#[derive(Debug)]
pub struct Task {
    pub id: usize,
    pub task: String,
}

impl View for Task {
    type V = TaskView;

    open spec fn view(&self) -> TaskView {
        TaskView { id: self.id as nat, text: self.task@ }
    }
}

impl Task {
    /// Builds a task from an identifier and a text.
    pub fn new(id: usize, task: String) -> (t: Task)
        ensures
            t@ == (TaskView { id: id as nat, text: task@ }),
            t.id == id,
            t.task == task,
    {
        Task { id, task }
    }
}

impl PartialEq for Task {
    /// Two tasks are equal when they have one identifier and one text.
    fn eq(&self, other: &Task) -> (same: bool) {
        self.id == other.id && self.task == other.task
    }
}

impl vstd::std_specs::cmp::PartialEqSpecImpl for Task {
    open spec fn obeys_eq_spec() -> bool {
        true
    }

    open spec fn eq_spec(&self, other: &Task) -> bool {
        self.id == other.id && self.task@ == other.task@
    }
}

impl Clone for Task {
    fn clone(&self) -> (t: Task)
        ensures
            t@ == self@,
            t == *self,
    {
        Task { id: self.id, task: self.task.clone() }
    }
}

} // verus!
