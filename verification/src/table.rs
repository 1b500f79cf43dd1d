//! The stored table of tasks: rows numbered one by one from 1, in the order of
//! their identifiers. Inserting gives the next number; removing a row numbers
//! the rows that stay anew, so that no gap is left.

use crate::list::{after_removal, dense_from, has_id, model, remove_and_renumber};
use crate::task::{Task, TaskView};
use vstd::prelude::*;

verus! {

/// The table with one more row at its end, numbered one above the last.
pub open spec fn inserted(rows: Seq<TaskView>, text: Seq<char>) -> Seq<TaskView> {
    rows.push(TaskView { id: rows.len() + 1, text })
}

/// The rows of the task table.
pub struct TaskTable {
    rows: Vec<Task>,
}

impl View for TaskTable {
    type V = Seq<TaskView>;

    closed spec fn view(&self) -> Seq<TaskView> {
        model(self.rows@)
    }
}

impl TaskTable {
    /// The identifiers of the rows are 1, 2, 3 and so on, with no gap.
    pub open spec fn wf(&self) -> bool {
        dense_from(self@, 1)
    }

    /// A table without rows.
    pub fn new() -> (table: TaskTable)
        ensures
            table.wf(),
            table@ == Seq::<TaskView>::empty(),
    {
        let table = TaskTable { rows: Vec::new() };
        assert(table@ =~= Seq::<TaskView>::empty());
        table
    }

    /// The number of rows.
    pub fn len(&self) -> (n: usize)
        ensures
            n == self@.len(),
    {
        self.rows.len()
    }

    /// Adds a row with the text `text` and returns its identifier, which is
    /// one above the number of rows that the table had.
    pub fn insert(&mut self, text: String) -> (id: usize)
        requires
            old(self).wf(),
        ensures
            final(self).wf(),
            final(self)@ == inserted(old(self)@, text@),
            id == old(self)@.len() + 1,
    {
        // The new identifier is the number of rows after the push, so it fits
        // the machine's integers whenever the row does.
        self.rows.push(Task { id: 0, task: text });
        let id = self.rows.len();
        self.rows[id - 1].id = id;
        assert(self@ =~= inserted(old(self)@, text@));
        id
    }

    /// Deletes the row with the identifier `id`, if there is one, and numbers
    /// the rows that stay from 1 in the order of their old identifiers. Says
    /// whether a row was deleted.
    pub fn remove(&mut self, id: usize) -> (removed: bool)
        requires
            old(self).wf(),
        ensures
            final(self).wf(),
            removed == has_id(old(self)@, id as nat),
            final(self)@ == after_removal(old(self)@, id as nat, 1),
    {
        assert(self.rows@.len() == self.rows.len());
        remove_and_renumber(&mut self.rows, id, 1)
    }

    /// All rows, in the order of their identifiers.
    pub fn rows(&self) -> (rows: &Vec<Task>)
        ensures
            model(rows@) == self@,
    {
        &self.rows
    }
}

} // verus!
