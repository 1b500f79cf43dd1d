//! A list of tasks as the front-end keeps it: looking tasks up, appending,
//! removing and renumbering.

use crate::task::{Task, TaskView};
use vstd::prelude::*;

verus! {

/// What a list of tasks is in contracts: the views of its tasks, in order.
pub open spec fn model(list: Seq<Task>) -> Seq<TaskView> {
    Seq::new(list.len(), |i: int| list[i]@)
}

/// Some task of the list has exactly this text.
pub open spec fn has_text(list: Seq<TaskView>, text: Seq<char>) -> bool {
    exists|i: int| 0 <= i < list.len() && #[trigger] list[i].text == text
}

/// Some task of the list has this identifier.
pub open spec fn has_id(list: Seq<TaskView>, id: nat) -> bool {
    exists|i: int| 0 <= i < list.len() && #[trigger] list[i].id == id
}

/// `p` is the place of the first task of the list with this identifier.
pub open spec fn is_first_with_id(list: Seq<TaskView>, id: nat, p: int) -> bool {
    &&& 0 <= p < list.len()
    &&& list[p].id == id
    &&& forall|j: int| 0 <= j < p ==> #[trigger] list[j].id != id
}

/// The place of the first task with this identifier, where there is one.
pub open spec fn first_with_id(list: Seq<TaskView>, id: nat) -> int {
    choose|p: int| is_first_with_id(list, id, p)
}

/// The identifiers of the list count up one by one from `first`.
pub open spec fn dense_from(list: Seq<TaskView>, first: nat) -> bool {
    forall|i: int| 0 <= i < list.len() ==> #[trigger] list[i].id == first + i
}

/// The same texts in the same order, numbered one by one from `first`.
pub open spec fn renumbered(list: Seq<TaskView>, first: nat) -> Seq<TaskView> {
    Seq::new(list.len(), |i: int| TaskView { id: (first + i) as nat, text: list[i].text })
}

/// The texts of the list, in order.
pub open spec fn texts(list: Seq<TaskView>) -> Seq<Seq<char>> {
    Seq::new(list.len(), |i: int| list[i].text)
}

/// The list with a new task at its end, numbered by the length before.
pub open spec fn appended(list: Seq<TaskView>, text: Seq<char>) -> Seq<TaskView> {
    list.push(TaskView { id: list.len(), text })
}

/// The list once the first task with this identifier has left it and the
/// others have been numbered anew from `first`; the list itself where no task
/// has the identifier.
pub open spec fn after_removal(list: Seq<TaskView>, id: nat, first: nat) -> Seq<TaskView> {
    if has_id(list, id) {
        renumbered(list.remove(first_with_id(list, id)), first)
    } else {
        list
    }
}

/// At most one place is the first with a given identifier.
pub proof fn lemma_first_with_id_is(list: Seq<TaskView>, id: nat, p: int)
    requires
        is_first_with_id(list, id, p),
    ensures
        has_id(list, id),
        first_with_id(list, id) == p,
{
    let q = first_with_id(list, id);
    assert(is_first_with_id(list, id, q));
    if q < p {
        assert(list[q].id != id);
    }
    if p < q {
        assert(list[p].id != id);
    }
}

/// Whether some task of the list has exactly the text `value`.
pub fn search_for_value(value: &str, list: &Vec<Task>) -> (found: bool)
    ensures
        found == has_text(model(list@), value@),
{
    let wanted = value.to_owned();
    let mut i: usize = 0;
    while i < list.len()
        invariant
            i <= list.len(),
            wanted@ == value@,
            forall|j: int| 0 <= j < i ==> (#[trigger] model(list@)[j]).text != value@,
        decreases list.len() - i,
    {
        if list[i].task == wanted {
            assert(model(list@)[i as int].text == value@);
            return true;
        }
        i += 1;
    }
    false
}

/// The place of the first task with the identifier `id`, if any task has it.
pub fn position_of_id(list: &Vec<Task>, id: usize) -> (place: Option<usize>)
    ensures
        match place {
            Some(p) => is_first_with_id(model(list@), id as nat, p as int),
            None => !has_id(model(list@), id as nat),
        },
{
    let mut i: usize = 0;
    while i < list.len()
        invariant
            i <= list.len(),
            forall|j: int| 0 <= j < i ==> (#[trigger] model(list@)[j]).id != id,
        decreases list.len() - i,
    {
        if list[i].id == id {
            return Some(i);
        }
        i += 1;
    }
    None
}

/// Numbers the tasks one by one from `first`, in the order in which they
/// stand. The last number has to fit the machine's integers.
pub fn renumber(list: &mut Vec<Task>, first: usize)
    requires
        first + old(list)@.len() <= usize::MAX + 1,
    ensures
        model(final(list)@) == renumbered(model(old(list)@), first as nat),
{
    let mut i: usize = 0;
    while i < list.len()
        invariant
            i <= list.len(),
            list@.len() == old(list)@.len(),
            first + list@.len() <= usize::MAX + 1,
            forall|j: int| 0 <= j < i ==> (#[trigger] list@[j])@ == renumbered(model(old(list)@), first as nat)[j],
            forall|j: int| i <= j < list@.len() ==> (#[trigger] list@[j]) == old(list)@[j],
        decreases list.len() - i,
    {
        list[i].id = first + i;
        i += 1;
    }
    assert(model(list@) =~= renumbered(model(old(list)@), first as nat));
}

/// Puts a new task with the text `text` at the end of the list and gives it
/// the number of tasks that stood there before as its identifier.
pub fn append_task(list: &mut Vec<Task>, text: String)
    ensures
        model(final(list)@) == appended(model(old(list)@), text@),
{
    let id = list.len();
    list.push(Task { id, task: text });
    assert(model(list@) =~= appended(model(old(list)@), text@));
}

/// Takes the first task with the identifier `id` out of the list and numbers
/// the others anew from `first`. Where no task has the identifier the list
/// stays as it is. Says whether a task left.
pub fn remove_and_renumber(list: &mut Vec<Task>, id: usize, first: usize) -> (removed: bool)
    requires
        first + old(list)@.len() <= usize::MAX + 1,
    ensures
        removed == has_id(model(old(list)@), id as nat),
        model(final(list)@) == after_removal(model(old(list)@), id as nat, first as nat),
        !removed ==> final(list)@ == old(list)@,
{
    match position_of_id(list, id) {
        Some(p) => {
            proof {
                lemma_first_with_id_is(model(list@), id as nat, p as int);
            }
            list.remove(p);
            assert(model(list@) =~= model(old(list)@).remove(p as int));
            renumber(list, first);
            true
        },
        None => false,
    }
}

} // verus!
