use vstd::prelude::*;

use crate::todo::{todos_view, Todo, TodoView};

verus! {

/// Whether some record in `s` has the id `id`.
pub open spec fn has_id(s: Seq<TodoView>, id: u64) -> bool {
    exists|i: int| 0 <= i < s.len() && #[trigger] s[i].id == id
}

/// No two records in `s` share an id.
pub open spec fn ids_unique(s: Seq<TodoView>) -> bool {
    forall|i: int, j: int|
        0 <= i < s.len() && 0 <= j < s.len() && i != j ==> #[trigger] s[i].id != #[trigger] s[j].id
}

/// Create: the record is appended unless its id is taken.
/// The second component says whether it was.
pub open spec fn spec_create(s: Seq<TodoView>, t: TodoView) -> (Seq<TodoView>, bool) {
    if has_id(s, t.id) {
        (s, false)
    } else {
        (s.push(t), true)
    }
}

/// The record that an update of the record `x` with `t` under `id` leaves:
/// `t`'s text and completion under the id `id`, where `x` has that id.
pub open spec fn replaced(x: TodoView, id: u64, t: TodoView) -> TodoView {
    if x.id == id {
        TodoView { id, text: t.text, completed: t.completed }
    } else {
        x
    }
}

/// Update: the record with the id `id` takes `t`'s contents and keeps its id;
/// the second component says whether there was such a record.
pub open spec fn spec_update(s: Seq<TodoView>, id: u64, t: TodoView) -> (Seq<TodoView>, bool) {
    (s.map_values(|x: TodoView| replaced(x, id, t)), has_id(s, id))
}

/// Holds of the records whose id is not `id`.
pub open spec fn not_id(id: u64) -> spec_fn(TodoView) -> bool {
    |x: TodoView| x.id != id
}

/// Delete: every record with the id `id` goes; the second component says
/// whether there was one.
pub open spec fn spec_delete(s: Seq<TodoView>, id: u64) -> (Seq<TodoView>, bool) {
    (s.filter(not_id(id)), has_id(s, id))
}

/// Why a store operation did not take effect.
#[derive(PartialEq, Eq, Structural, Clone, Copy, Debug)]
pub enum StoreError {
    /// A record with that id is already there.
    Conflict,
    /// No record has that id.
    NotFound,
}

/// The records of the service, in the order in which they were created.
pub struct TodoStore {
    todos: Vec<Todo>,
}

impl View for TodoStore {
    type V = Seq<TodoView>;

    closed spec fn view(&self) -> Seq<TodoView> {
        todos_view(self.todos@)
    }
}

impl TodoStore {
    /// The store's invariant: ids are unique.
    pub open spec fn wf(&self) -> bool {
        ids_unique(self@)
    }

    /// An empty store.
    pub fn new() -> (r: TodoStore)
        ensures
            r@ == Seq::<TodoView>::empty(),
            r.wf(),
    {
        let r = TodoStore { todos: Vec::new() };
        assert(r@ =~= Seq::<TodoView>::empty());
        r
    }

    /// The number of records.
    pub fn len(&self) -> (r: usize)
        ensures
            r == self@.len(),
    {
        self.todos.len()
    }

    /// A copy of all records, in order.
    pub fn list(&self) -> (r: Vec<Todo>)
        ensures
            todos_view(r@) == self@,
    {
        let mut r: Vec<Todo> = Vec::new();
        let mut i: usize = 0;
        while i < self.todos.len()
            invariant
                i <= self.todos@.len(),
                r@.len() == i,
                forall|k: int| 0 <= k < i ==> (#[trigger] r@[k])@ == self.todos@[k]@,
            decreases self.todos@.len() - i,
        {
            r.push(self.todos[i].duplicate());
            i = i + 1;
        }
        assert(todos_view(r@) =~= self@);
        r
    }

    /// Appends `todo` unless a record with its id is there already.
    pub fn create(&mut self, todo: Todo) -> (r: Result<(), StoreError>)
        requires
            old(self).wf(),
        ensures
            final(self).wf(),
            final(self)@ == spec_create(old(self)@, todo@).0,
            r is Ok <==> spec_create(old(self)@, todo@).1,
            r is Err ==> r == Err::<(), StoreError>(StoreError::Conflict),
    {
        let mut i: usize = 0;
        while i < self.todos.len()
            invariant
                i <= self.todos@.len(),
                self@ == old(self)@,
                self.wf(),
                forall|k: int| 0 <= k < i ==> (#[trigger] self@[k]).id != todo.id,
            decreases self.todos@.len() - i,
        {
            if self.todos[i].id == todo.id {
                assert(self@[i as int].id == todo.id);
                return Err(StoreError::Conflict);
            }
            i = i + 1;
        }
        let ghost s = self@;
        let ghost t = todo@;
        self.todos.push(todo);
        assert(self@ =~= s.push(t));
        Ok(())
    }

    /// Gives the record with the id `id` the text and completion of `todo`.
    pub fn update(&mut self, id: u64, todo: Todo) -> (r: Result<(), StoreError>)
        requires
            old(self).wf(),
        ensures
            final(self).wf(),
            final(self)@ == spec_update(old(self)@, id, todo@).0,
            r is Ok <==> spec_update(old(self)@, id, todo@).1,
            r is Err ==> r == Err::<(), StoreError>(StoreError::NotFound),
    {
        let ghost s = self@;
        let ghost t = todo@;
        assert(s == old(self)@);
        let mut i: usize = 0;
        while i < self.todos.len()
            invariant
                i <= self.todos@.len(),
                self@ == s,
                s == old(self)@,
                t == todo@,
                ids_unique(s),
                forall|k: int| 0 <= k < i ==> (#[trigger] s[k]).id != id,
            decreases self.todos@.len() - i,
        {
            assert(s[i as int] == self.todos@[i as int]@);
            if self.todos[i].id == id {
                assert(s[i as int].id == id);
                let ghost v = self.todos@;
                let new_todo = Todo { id, text: todo.text, completed: todo.completed };
                assert(new_todo@ == replaced(s[i as int], id, t));
                self.todos.set(i, new_todo);
                assert(self.todos@ == v.update(i as int, new_todo));
                assert(self@ =~= spec_update(s, id, t).0) by {
                    assert forall|k: int| 0 <= k < s.len() implies #[trigger] self@[k] == replaced(
                        s[k],
                        id,
                        t,
                    ) by {
                        assert(self@[k] == self.todos@[k]@);
                        assert(s[k] == v[k]@);
                        if k != i {
                            assert(s[k].id != id);
                        }
                    }
                }
                assert(has_id(s, id)) by {
                    assert(s[i as int].id == id);
                }
                assert(forall|k: int| 0 <= k < s.len() ==> (#[trigger] self@[k]).id == s[k].id);
                return Ok(());
            }
            i = i + 1;
        }
        assert(spec_update(s, id, t).0 =~= s);
        Err(StoreError::NotFound)
    }

    /// Removes every record with the id `id`.
    pub fn delete(&mut self, id: u64) -> (r: Result<(), StoreError>)
        requires
            old(self).wf(),
        ensures
            final(self).wf(),
            final(self)@ == spec_delete(old(self)@, id).0,
            r is Ok <==> spec_delete(old(self)@, id).1,
            r is Err ==> r == Err::<(), StoreError>(StoreError::NotFound),
    {
        let ghost s = self@;
        let mut kept: Vec<Todo> = Vec::new();
        let mut removed: bool = false;
        let mut i: usize = 0;
        while i < self.todos.len()
            invariant
                i <= self.todos@.len(),
                self@ == s,
                todos_view(kept@) == s.subrange(0, i as int).filter(not_id(id)),
                removed <==> exists|k: int| 0 <= k < i && (#[trigger] s[k]).id == id,
                ids_unique(s),
            decreases self.todos@.len() - i,
        {
            proof {
                reveal(Seq::filter);
                assert(s.subrange(0, i + 1).drop_last() =~= s.subrange(0, i as int));
            }
            assert(s.subrange(0, i + 1).last() == s[i as int]);
            assert(s[i as int] == self.todos@[i as int]@);
            if self.todos[i].id != id {
                let ghost prev = kept@;
                kept.push(self.todos[i].duplicate());
                assert(not_id(id)(s[i as int]));
                assert(todos_view(kept@) =~= todos_view(prev).push(s[i as int]));
            } else {
                assert(!not_id(id)(s[i as int]));
                removed = true;
                assert(s[i as int].id == id);
            }
            i = i + 1;
        }
        assert(s.subrange(0, i as int) =~= s);
        self.todos = kept;
        proof {
            lemma_filter_keeps_unique(s, not_id(id));
        }
        if removed {
            Ok(())
        } else {
            assert(s.filter(not_id(id)) =~= s) by {
                lemma_filter_all(s, not_id(id));
            }
            Err(StoreError::NotFound)
        }
    }
}

/// Filtering a sequence whose ids are unique leaves them unique.
pub proof fn lemma_filter_keeps_unique(s: Seq<TodoView>, keep: spec_fn(TodoView) -> bool)
    requires
        ids_unique(s),
    ensures
        ids_unique(s.filter(keep)),
    decreases s.len(),
{
    reveal(Seq::filter);
    if s.len() > 0 {
        let p = s.drop_last();
        assert(ids_unique(p));
        lemma_filter_keeps_unique(p, keep);
        if keep(s.last()) {
            let f = p.filter(keep);
            assert forall|k: int| 0 <= k < f.len() implies (#[trigger] f[k]).id != s.last().id by {
                lemma_filter_subseq(p, keep, k);
                let j = choose|j: int| 0 <= j < p.len() && p[j] == f[k];
                assert(s[j] == p[j]);
            }
        }
    }
}

/// Every record of a filtered sequence is one of the original's.
proof fn lemma_filter_subseq(s: Seq<TodoView>, keep: spec_fn(TodoView) -> bool, k: int)
    requires
        0 <= k < s.filter(keep).len(),
    ensures
        exists|j: int| 0 <= j < s.len() && s[j] == #[trigger] s.filter(keep)[k],
    decreases s.len(),
{
    reveal(Seq::filter);
    let p = s.drop_last();
    if k < p.filter(keep).len() {
        lemma_filter_subseq(p, keep, k);
        let j = choose|j: int| 0 <= j < p.len() && p[j] == p.filter(keep)[k];
        assert(s[j] == s.filter(keep)[k]);
    } else {
        assert(s[s.len() - 1] == s.filter(keep)[k]);
    }
}

/// Filtering with a predicate that every element meets changes nothing.
proof fn lemma_filter_all(s: Seq<TodoView>, keep: spec_fn(TodoView) -> bool)
    requires
        forall|k: int| 0 <= k < s.len() ==> keep(#[trigger] s[k]),
    ensures
        s.filter(keep) == s,
    decreases s.len(),
{
    reveal(Seq::filter);
    if s.len() > 0 {
        let p = s.drop_last();
        assert forall|k: int| 0 <= k < p.len() implies keep(#[trigger] p[k]) by {
            assert(p[k] == s[k]);
        }
        lemma_filter_all(p, keep);
        assert(p.push(s.last()) =~= s);
    }
}

} // verus!
