//! The state of the task board that a user sees, and what each of the user's
//! actions does to it: typing, adding a task, removing one, searching.

use crate::list::{
    after_removal, append_task, appended, has_id, has_text, model, remove_and_renumber,
    search_for_value,
};
use crate::shown::{matching, sorted_stably, visible_tasks};
use crate::task::{Task, TaskView};
use crate::text::{trim, trimmed};
use vstd::prelude::*;

verus! {

/// How many seconds a refusal stays on the board before it is wiped.
pub const ERROR_HOLD_SECONDS: u64 = 10;

/// What is decided when the user asks for the entry to be added.
#[derive(Clone, Copy, Debug, PartialEq, Eq, Structural)]
pub enum AddDecision {
    /// Nothing but white space was entered.
    RejectEmpty,
    /// A task with exactly this text is on the board already.
    RejectDuplicate,
    /// The entry goes to the store.
    Submit,
}

/// The decision on an entry, from what is left of it without the white space
/// at its ends and from whether the board holds its text already. An empty
/// entry is refused before a duplicate is looked for.
pub open spec fn addition_decision(trimmed_entry: Seq<char>, duplicate: bool) -> AddDecision {
    if trimmed_entry.len() == 0 {
        AddDecision::RejectEmpty
    } else if duplicate {
        AddDecision::RejectDuplicate
    } else {
        AddDecision::Submit
    }
}

/// The message that a decision puts on the board; none for an entry that is
/// taken.
pub open spec fn refusal_text(decision: AddDecision) -> Option<Seq<char>> {
    match decision {
        AddDecision::RejectEmpty => Some("Empty user input"@),
        AddDecision::RejectDuplicate => Some("Task already exists"@),
        AddDecision::Submit => None,
    }
}

impl AddDecision {
    /// The message that this decision puts on the board; none for an entry
    /// that is taken.
    pub fn message(&self) -> (text: Option<String>)
        ensures
            match text {
                Some(t) => refusal_text(*self) == Some(t@),
                None => refusal_text(*self) is None,
            },
    {
        match self {
            AddDecision::RejectEmpty => Some("Empty user input".to_owned()),
            AddDecision::RejectDuplicate => Some("Task already exists".to_owned()),
            AddDecision::Submit => None,
        }
    }
}

/// Decides on an entry, given what is left of it without the white space at
/// its ends and whether the board holds its text already.
pub fn decide_addition(trimmed_entry: &str, duplicate: bool) -> (decision: AddDecision)
    ensures
        decision == addition_decision(trimmed_entry@, duplicate),
{
    if trimmed_entry.is_empty() {
        AddDecision::RejectEmpty
    } else if duplicate {
        AddDecision::RejectDuplicate
    } else {
        AddDecision::Submit
    }
}

/// What a board is in contracts.
pub struct BoardView {
    pub user_input: Seq<char>,
    pub search_input: Seq<char>,
    pub tasks: Seq<TaskView>,
    pub error_message: Seq<char>,
}

/// The task board: the entry being typed, the search being typed, the tasks,
/// and the message shown after a refusal.
pub struct Board {
    pub user_input: String,
    pub search_input: String,
    pub tasks: Vec<Task>,
    pub error_message: String,
}

impl View for Board {
    type V = BoardView;

    open spec fn view(&self) -> BoardView {
        BoardView {
            user_input: self.user_input@,
            search_input: self.search_input@,
            tasks: model(self.tasks@),
            error_message: self.error_message@,
        }
    }
}

impl Board {
    /// A board with nothing typed, no task and no message.
    pub fn new() -> (board: Board)
        ensures
            board@ == (BoardView {
                user_input: Seq::empty(),
                search_input: Seq::empty(),
                tasks: Seq::empty(),
                error_message: Seq::empty(),
            }),
    {
        let board = Board {
            user_input: String::new(),
            search_input: String::new(),
            tasks: Vec::new(),
            error_message: String::new(),
        };
        assert(board@.tasks =~= Seq::<TaskView>::empty());
        board
    }

    /// The user typed into the entry field: the entry is what the field holds.
    pub fn set_user_input(&mut self, value: String)
        ensures
            final(self)@ == (BoardView { user_input: value@, ..old(self)@ }),
    {
        self.user_input = value;
    }

    /// The user typed into the search field: the search is what the field
    /// holds.
    pub fn set_search_input(&mut self, value: String)
        ensures
            final(self)@ == (BoardView { search_input: value@, ..old(self)@ }),
    {
        self.search_input = value;
    }

    /// The store has sent its list of tasks: the board shows that list.
    pub fn load(&mut self, tasks: Vec<Task>)
        ensures
            final(self)@ == (BoardView { tasks: model(tasks@), ..old(self)@ }),
    {
        self.tasks = tasks;
    }

    /// The user asked for the entry to be added. An entry of white space and
    /// an entry whose text is on the board already are refused, and the
    /// refusal is put on the board as its message; any other entry is to be
    /// sent to the store, and the board stays as it is until the store has
    /// answered.
    pub fn request_add(&mut self) -> (decision: AddDecision)
        ensures
            decision == addition_decision(
                trimmed(old(self)@.user_input),
                has_text(old(self)@.tasks, old(self)@.user_input),
            ),
            final(self)@ == (BoardView {
                error_message: match refusal_text(decision) {
                    Some(text) => text,
                    None => old(self)@.error_message,
                },
                ..old(self)@
            }),
    {
        let duplicate = search_for_value(self.user_input.as_str(), &self.tasks);
        let decision = decide_addition(trim(self.user_input.as_str()), duplicate);
        match decision.message() {
            Some(text) => {
                self.error_message = text;
            },
            None => {},
        }
        decision
    }

    /// The time for which a refusal is shown is over: the message is wiped.
    pub fn clear_error(&mut self)
        ensures
            final(self)@ == (BoardView { error_message: Seq::empty(), ..old(self)@ }),
    {
        self.error_message = String::new();
    }

    /// The store has taken the task with the text `text` and sent the list
    /// `fetched`: the board shows that list with the task at its end, numbered
    /// by the length of the list, and no message.
    pub fn task_stored(&mut self, fetched: Vec<Task>, text: String)
        ensures
            final(self)@ == (BoardView {
                tasks: appended(model(fetched@), text@),
                error_message: Seq::empty(),
                ..old(self)@
            }),
    {
        let mut tasks = fetched;
        append_task(&mut tasks, text);
        self.error_message = String::new();
        self.tasks = tasks;
    }

    /// The user asked for the task with the identifier `id` to be removed.
    /// Where the board holds such a task, the first of them leaves, the
    /// others are numbered anew from 0, the message is wiped, and the removal
    /// is to be sent to the store. Where it holds none, nothing changes.
    /// Says whether a task left.
    pub fn request_removal(&mut self, id: usize) -> (removed: bool)
        ensures
            removed == has_id(old(self)@.tasks, id as nat),
            final(self)@ == (BoardView {
                tasks: after_removal(old(self)@.tasks, id as nat, 0),
                error_message: if removed {
                    Seq::empty()
                } else {
                    old(self)@.error_message
                },
                ..old(self)@
            }),
    {
        assert(self.tasks@.len() == self.tasks.len());
        let removed = remove_and_renumber(&mut self.tasks, id, 0);
        if removed {
            self.error_message = String::new();
        }
        removed
    }

    /// The tasks that the board shows: those whose text matches the search,
    /// whatever the case of the letters, ordered by identifier.
    pub fn visible(&self) -> (shown: Vec<Task>)
        ensures
            sorted_stably(matching(self@.tasks, self@.search_input), model(shown@)),
    {
        visible_tasks(&self.tasks, self.search_input.as_str())
    }
}

} // verus!
