use vstd::prelude::*;

verus! {

/// Whether a to-do item has been done.
#[derive(Clone, Copy, Debug, PartialEq, Eq, Structural)]
pub enum TodoStatus {
    Incomplete,
    Complete,
}

/// The text under which a status is stored in the database.
pub open spec fn status_name(s: TodoStatus) -> Seq<char> {
    match s {
        TodoStatus::Incomplete => "Incomplete"@,
        TodoStatus::Complete => "Complete"@,
    }
}

/// The status stored under a text, if any.
pub open spec fn parse_status(text: Seq<char>) -> Option<TodoStatus> {
    if text == status_name(TodoStatus::Incomplete) {
        Some(TodoStatus::Incomplete)
    } else if text == status_name(TodoStatus::Complete) {
        Some(TodoStatus::Complete)
    } else {
        None
    }
}

impl TodoStatus {
    /// The text under which this status is stored.
    pub fn name(&self) -> (r: String)
        ensures
            r@ == status_name(*self),
    {
        match self {
            TodoStatus::Incomplete => String::from_str("Incomplete"),
            TodoStatus::Complete => String::from_str("Complete"),
        }
    }

    /// Reads a status back from its stored text.
    pub fn from_name(text: &String) -> (r: Option<TodoStatus>)
        ensures
            r == parse_status(text@),
    {
        if *text == TodoStatus::Incomplete.name() {
            Some(TodoStatus::Incomplete)
        } else if *text == TodoStatus::Complete.name() {
            Some(TodoStatus::Complete)
        } else {
            None
        }
    }
}

/// A to-do item as the store holds it.
#[derive(Debug)]
pub struct Todo {
    pub id: u16,
    pub description: String,
    pub status: TodoStatus,
}

/// The mathematical value of a [`Todo`].
pub struct TodoView {
    pub id: u16,
    pub description: Seq<char>,
    pub status: TodoStatus,
}

impl View for Todo {
    type V = TodoView;

    open spec fn view(&self) -> TodoView {
        TodoView { id: self.id, description: self.description@, status: self.status }
    }
}

impl Todo {
    /// An item with the given fields.
    pub fn new(id: u16, description: String, status: TodoStatus) -> (r: Todo)
        ensures
            r@ == (TodoView { id, description: description@, status }),
    {
        Todo { id, description, status }
    }

    /// A copy of this item.
    pub fn duplicate(&self) -> (r: Todo)
        ensures
            r@ == self@,
    {
        Todo { id: self.id, description: self.description.clone(), status: self.status }
    }
}

} // verus!
