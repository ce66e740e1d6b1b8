use vstd::prelude::*;

verus! {

/// A to-do item: `id` is its identity in the store.
pub struct Todo {
    pub id: u64,
    pub text: String,
    pub completed: bool,
}

/// What a `Todo` holds, as mathematical values.
pub struct TodoView {
    pub id: u64,
    pub text: Seq<char>,
    pub completed: bool,
}

impl View for Todo {
    type V = TodoView;

    open spec fn view(&self) -> TodoView {
        TodoView { id: self.id, text: self.text@, completed: self.completed }
    }
}

impl Todo {
    pub fn new(id: u64, text: String, completed: bool) -> (r: Todo)
        ensures
            r.id == id,
            r.text == text,
            r.completed == completed,
    {
        Todo { id, text, completed }
    }

    /// A copy of this record.
    pub fn duplicate(&self) -> (r: Todo)
        ensures
            r@ == self@,
    {
        Todo { id: self.id, text: self.text.clone(), completed: self.completed }
    }
}

/// The views of a sequence of records.
pub open spec fn todos_view(v: Seq<Todo>) -> Seq<TodoView> {
    v.map_values(|t: Todo| t@)
}

} // verus!
