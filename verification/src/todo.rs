//! The to-do list service: numbered tasks that can be looked up, completed,
//! deleted, filtered, counted, saved and loaded.

use vstd::prelude::*;
use crate::sequences::{first_match, lemma_first_match, lemma_first_match_at, lemma_first_match_none,
    lemma_first_match_push, lemma_first_match_update, lemma_filter_take_step};
use crate::text::{parse_i32, spec_parse_i32, same_text};

verus! {

/// One task of the list.
pub struct Todo {
    pub id: i32,
    pub task: String,
    pub completed: bool,
}

impl Todo {
    /// A duplicate of this to-do item.
    pub fn duplicate(&self) -> (res: Todo)
        ensures
            res == *self,
    {
        Todo { id: self.id, task: self.task.clone(), completed: self.completed }
    }
}

/// The two filters that the list answers: done tasks, and tasks not done.
pub enum StatusFilter {
    Completed,
    Pending,
}

/// Counts over the whole list.
pub struct TodoStats {
    pub total: usize,
    pub completed: usize,
    pub pending: usize,
}

/// The list of tasks with the id that the next added task gets.
pub struct TodoList {
    next_id: i32,
    todos: Vec<Todo>,
}

/// What a `TodoList` holds.
pub struct TodoListView {
    pub next_id: i32,
    pub todos: Seq<Todo>,
}

impl View for TodoList {
    type V = TodoListView;

    closed spec fn view(&self) -> TodoListView {
        TodoListView { next_id: self.next_id, todos: self.todos@ }
    }
}

/// A task with the id `id`.
pub open spec fn has_id(id: i32) -> spec_fn(Todo) -> bool {
    |t: Todo| t.id == id
}

/// A task with an id other than `id`.
pub open spec fn lacks_id(id: i32) -> spec_fn(Todo) -> bool {
    |t: Todo| t.id != id
}

/// The tasks that a filter keeps.
pub open spec fn keeps(filter: StatusFilter) -> spec_fn(Todo) -> bool {
    match filter {
        StatusFilter::Completed => |t: Todo| t.completed,
        StatusFilter::Pending => |t: Todo| !t.completed,
    }
}

/// The filter that a status text names: `completed` or `pending`.
pub open spec fn spec_status_filter(status: Seq<char>) -> Option<StatusFilter> {
    if status == "completed"@ {
        Some(StatusFilter::Completed)
    } else if status == "pending"@ {
        Some(StatusFilter::Pending)
    } else {
        None
    }
}

/// The list that a fresh service starts with.
pub open spec fn spec_empty_list() -> TodoListView {
    TodoListView { next_id: 1, todos: Seq::empty() }
}

/// The list after adding `task`: it gets the next id and is not done.
pub open spec fn spec_add_todo(v: TodoListView, task: String) -> TodoListView {
    TodoListView {
        next_id: (v.next_id + 1) as i32,
        todos: v.todos.push(Todo { id: v.next_id, task, completed: false }),
    }
}

/// The first task with the id `id`.
pub open spec fn spec_find(v: TodoListView, id: i32) -> Option<Todo> {
    match first_match(v.todos, has_id(id)) {
        Some(i) => Some(v.todos[i]),
        None => None,
    }
}

/// The list after marking the first task with the id `id` done.
pub open spec fn spec_mark_complete(v: TodoListView, id: i32) -> TodoListView {
    match first_match(v.todos, has_id(id)) {
        Some(i) => TodoListView {
            next_id: v.next_id,
            todos: v.todos.update(i, Todo { completed: true, ..v.todos[i] }),
        },
        None => v,
    }
}

/// The list after removing every task with the id `id`.
pub open spec fn spec_delete(v: TodoListView, id: i32) -> TodoListView {
    TodoListView { next_id: v.next_id, todos: v.todos.filter(lacks_id(id)) }
}

/// Ids below the next id, no two tasks sharing one: what adding,
/// completing, deleting and clearing keep.
pub open spec fn well_formed(v: TodoListView) -> bool {
    &&& forall|i: int| 0 <= i < v.todos.len() ==> #[trigger] v.todos[i].id < v.next_id
    &&& forall|i: int, j: int|
        0 <= i < j < v.todos.len() ==> #[trigger] v.todos[i].id != #[trigger] v.todos[j].id
}

/// Elements that a filter keeps come from the sequence, and keys that were
/// pairwise distinct stay so.
proof fn lemma_filter_ids_distinct(s: Seq<Todo>, p: spec_fn(Todo) -> bool, bound: i32)
    requires
        forall|i: int| 0 <= i < s.len() ==> #[trigger] s[i].id < bound,
        forall|i: int, j: int| 0 <= i < j < s.len() ==> #[trigger] s[i].id != #[trigger] s[j].id,
    ensures
        forall|i: int| 0 <= i < s.filter(p).len() ==> #[trigger] s.filter(p)[i].id < bound,
        forall|i: int, j: int|
            0 <= i < j < s.filter(p).len() ==> #[trigger] s.filter(p)[i].id
                != #[trigger] s.filter(p)[j].id,
        forall|i: int|
            0 <= i < s.filter(p).len() ==> s.contains(#[trigger] s.filter(p)[i]),
    decreases s.len(),
{
    if s.len() > 0 {
        let d = s.drop_last();
        assert(s =~= d.push(s.last()));
        lemma_filter_ids_distinct(d, p, bound);
        d.lemma_filter_push(s.last(), p);
        let f = d.filter(p);
        assert forall|i: int| 0 <= i < f.len() implies #[trigger] f[i].id != s.last().id by {
            let k = choose|k: int| 0 <= k < d.len() && d[k] == f[i];
            assert(s[k] == d[k]);
        }
        assert forall|i: int| 0 <= i < f.len() implies s.contains(#[trigger] f[i]) by {
            let k = choose|k: int| 0 <= k < d.len() && d[k] == f[i];
            assert(s[k] == d[k]);
        }
        if p(s.last()) {
            assert(s.contains(s.last())) by {
                assert(s[s.len() - 1] == s.last());
            }
        }
    } else {
        assert(s.filter(p) =~= s) by {
            reveal(Seq::filter);
        }
    }
}

/// Done and not-done tasks counted apart add up to the whole list.
proof fn lemma_partition_len(s: Seq<Todo>)
    ensures
        s.filter(keeps(StatusFilter::Completed)).len() + s.filter(keeps(StatusFilter::Pending)).len()
            == s.len(),
    decreases s.len(),
{
    if s.len() == 0 {
        reveal(Seq::filter);
    } else {
        let d = s.drop_last();
        assert(s =~= d.push(s.last()));
        lemma_partition_len(d);
        d.lemma_filter_len_push(keeps(StatusFilter::Completed), s.last());
        d.lemma_filter_len_push(keeps(StatusFilter::Pending), s.last());
    }
}

/// A fresh list is well formed.
pub proof fn law_empty_list_well_formed()
    ensures
        well_formed(spec_empty_list()),
{
}

/// Adding a task keeps the list well formed.
pub proof fn law_add_keeps_well_formed(v: TodoListView, task: String)
    requires
        well_formed(v),
        v.next_id < i32::MAX,
    ensures
        well_formed(spec_add_todo(v, task)),
{
    let w = spec_add_todo(v, task);
    assert forall|i: int| 0 <= i < w.todos.len() implies #[trigger] w.todos[i].id < w.next_id by {
        if i < v.todos.len() {
            assert(w.todos[i] == v.todos[i]);
        }
    }
    assert forall|i: int, j: int| 0 <= i < j < w.todos.len() implies #[trigger] w.todos[i].id
        != #[trigger] w.todos[j].id by {
        assert(w.todos[i] == v.todos[i]);
        if j < v.todos.len() {
            assert(w.todos[j] == v.todos[j]);
        }
    }
}

/// Marking a task done keeps the list well formed.
pub proof fn law_mark_keeps_well_formed(v: TodoListView, id: i32)
    requires
        well_formed(v),
    ensures
        well_formed(spec_mark_complete(v, id)),
{
    let w = spec_mark_complete(v, id);
    lemma_first_match(v.todos, has_id(id));
    assert forall|i: int| 0 <= i < w.todos.len() implies #[trigger] w.todos[i].id == v.todos[i].id by {}
}

/// Deleting keeps the list well formed.
pub proof fn law_delete_keeps_well_formed(v: TodoListView, id: i32)
    requires
        well_formed(v),
    ensures
        well_formed(spec_delete(v, id)),
{
    lemma_filter_ids_distinct(v.todos, lacks_id(id), v.next_id);
}

/// A task just added is the one found under the id it was given.
pub proof fn law_find_added(v: TodoListView, task: String)
    requires
        well_formed(v),
        v.next_id < i32::MAX,
    ensures
        spec_find(spec_add_todo(v, task), v.next_id) == Some(
            Todo { id: v.next_id, task, completed: false },
        ),
{
    let t = Todo { id: v.next_id, task, completed: false };
    assert forall|j: int| 0 <= j < v.todos.len() implies !has_id(v.next_id)(
        #[trigger] v.todos[j],
    ) by {}
    lemma_first_match_none(v.todos, has_id(v.next_id));
    lemma_first_match_push(v.todos, t, has_id(v.next_id));
}

/// After a delete, no task has the deleted id.
pub proof fn law_find_deleted(v: TodoListView, id: i32)
    ensures
        spec_find(spec_delete(v, id), id) is None,
{
    let f = v.todos.filter(lacks_id(id));
    assert forall|j: int| 0 <= j < f.len() implies !has_id(id)(#[trigger] f[j]) by {
        v.todos.lemma_filter_pred(lacks_id(id), j);
    }
    lemma_first_match_none(f, has_id(id));
}

/// After marking, the task found under the id is the one found before,
/// now done.
pub proof fn law_find_marked(v: TodoListView, id: i32)
    ensures
        spec_find(spec_mark_complete(v, id), id) == match spec_find(v, id) {
            Some(t) => Some(Todo { completed: true, ..t }),
            None => None,
        },
{
    lemma_first_match(v.todos, has_id(id));
    if let Some(i) = first_match(v.todos, has_id(id)) {
        lemma_first_match_update(v.todos, i, Todo { completed: true, ..v.todos[i] }, has_id(id));
    }
}

/// Marking the same id twice does what marking it once does.
pub proof fn law_mark_idempotent(v: TodoListView, id: i32)
    ensures
        spec_mark_complete(spec_mark_complete(v, id), id) == spec_mark_complete(v, id),
{
    lemma_first_match(v.todos, has_id(id));
    if let Some(i) = first_match(v.todos, has_id(id)) {
        let t = Todo { completed: true, ..v.todos[i] };
        lemma_first_match_update(v.todos, i, t, has_id(id));
        assert(v.todos.update(i, t).update(i, t) =~= v.todos.update(i, t));
    }
}

/// Deleting an id removes exactly the tasks with that id: every other task
/// stays, nothing new appears, the list shrinks by the number of tasks with
/// that id, and the next id stays.
pub proof fn law_delete_removes_only_that_id(v: TodoListView, id: i32)
    ensures
        spec_delete(v, id).next_id == v.next_id,
        forall|k: int|
            0 <= k < v.todos.len() && #[trigger] v.todos[k].id != id ==> spec_delete(
                v,
                id,
            ).todos.contains(v.todos[k]),
        forall|k: int|
            0 <= k < spec_delete(v, id).todos.len() ==> #[trigger] spec_delete(v, id).todos[k].id
                != id && v.todos.contains(spec_delete(v, id).todos[k]),
        spec_delete(v, id).todos.len() == v.todos.len() - v.todos.filter(has_id(id)).len(),
{
    crate::sequences::lemma_filter_exact(v.todos, lacks_id(id), has_id(id));
    let w = spec_delete(v, id);
    assert forall|k: int| 0 <= k < v.todos.len() && #[trigger] v.todos[k].id != id implies w.todos.contains(
        v.todos[k],
    ) by {
        assert(lacks_id(id)(v.todos[k]));
    }
    assert forall|k: int| 0 <= k < w.todos.len() implies #[trigger] w.todos[k].id != id
        && v.todos.contains(w.todos[k]) by {
        assert(lacks_id(id)(v.todos.filter(lacks_id(id))[k]));
    }
}

/// Deleting the same id twice does what deleting it once does.
pub proof fn law_delete_idempotent(v: TodoListView, id: i32)
    ensures
        spec_delete(spec_delete(v, id), id) == spec_delete(v, id),
{
    let f = v.todos.filter(lacks_id(id));
    assert forall|j: int| 0 <= j < f.len() implies lacks_id(id)(#[trigger] f[j]) by {
        v.todos.lemma_filter_pred(lacks_id(id), j);
    }
    lemma_filter_all_kept(f, lacks_id(id));
}

/// Filtering a sequence whose elements all pass changes nothing.
proof fn lemma_filter_all_kept(s: Seq<Todo>, p: spec_fn(Todo) -> bool)
    requires
        forall|j: int| 0 <= j < s.len() ==> p(#[trigger] s[j]),
    ensures
        s.filter(p) == s,
    decreases s.len(),
{
    reveal(Seq::filter);
    if s.len() > 0 {
        lemma_filter_all_kept(s.drop_last(), p);
        assert(s.drop_last().push(s.last()) =~= s);
    }
}

/// The done tasks and the tasks not done together are the whole list.
pub proof fn law_filters_partition(v: TodoListView)
    ensures
        v.todos.filter(keeps(StatusFilter::Completed)).len() + v.todos.filter(
            keeps(StatusFilter::Pending),
        ).len() == v.todos.len(),
{
    lemma_partition_len(v.todos);
}

/// A copy of the tasks `s`.
fn copy_todos(s: &Vec<Todo>) -> (res: Vec<Todo>)
    ensures
        res@ == s@,
{
    let mut res: Vec<Todo> = Vec::new();
    let mut i: usize = 0;
    while i < s.len()
        invariant
            i <= s@.len(),
            res@ == s@.take(i as int),
        decreases s@.len() - i,
    {
        res.push(s[i].duplicate());
        assert(s@.take(i + 1) =~= s@.take(i as int).push(s@[i as int]));
        i = i + 1;
    }
    assert(s@.take(i as int) =~= s@);
    res
}

/// The index of the first task with the id `id`.
fn index_of(s: &Vec<Todo>, id: i32) -> (res: Option<usize>)
    ensures
        match res {
            Some(i) => i < s@.len() && first_match(s@, has_id(id)) == Some(i as int),
            None => first_match(s@, has_id(id)) is None,
        },
{
    let mut i: usize = 0;
    while i < s.len()
        invariant
            i <= s@.len(),
            forall|j: int| 0 <= j < i ==> !has_id(id)(#[trigger] s@[j]),
        decreases s@.len() - i,
    {
        if s[i].id == id {
            proof {
                lemma_first_match_at(s@, has_id(id), i as int);
            }
            return Some(i);
        }
        i = i + 1;
    }
    proof {
        lemma_first_match_none(s@, has_id(id));
    }
    None
}

/// The tasks of `s` that `filter` keeps.
fn filter_todos(s: &Vec<Todo>, filter: StatusFilter) -> (res: Vec<Todo>)
    ensures
        res@ == s@.filter(keeps(filter)),
{
    let mut res: Vec<Todo> = Vec::new();
    let mut i: usize = 0;
    while i < s.len()
        invariant
            i <= s@.len(),
            res@ == s@.take(i as int).filter(keeps(filter)),
        decreases s@.len() - i,
    {
        proof {
            lemma_filter_take_step(s@, keeps(filter), i as int);
        }
        let keep = match filter {
            StatusFilter::Completed => s[i].completed,
            StatusFilter::Pending => !s[i].completed,
        };
        if keep {
            res.push(s[i].duplicate());
        }
        i = i + 1;
    }
    assert(s@.take(i as int) =~= s@);
    res
}

/// The filter that `status` names, `completed` or `pending`.
pub fn status_filter(status: &str) -> (res: Option<StatusFilter>)
    ensures
        res == spec_status_filter(status@),
{
    if same_text(status, "completed") {
        Some(StatusFilter::Completed)
    } else if same_text(status, "pending") {
        Some(StatusFilter::Pending)
    } else {
        None
    }
}

impl TodoList {
    /// An empty list whose first task gets the id 1.
    pub fn new() -> (res: TodoList)
        ensures
            res@ == spec_empty_list(),
    {
        TodoList { next_id: 1, todos: Vec::new() }
    }

    /// The id that the next added task gets.
    pub fn next_id(&self) -> (res: i32)
        ensures
            res == self@.next_id,
    {
        self.next_id
    }

    /// All tasks, in the order they were added.
    pub fn all(&self) -> (res: &Vec<Todo>)
        ensures
            res@ == self@.todos,
    {
        &self.todos
    }

    /// Adds `task`, not done, under the next id; returns how many tasks
    /// there are now.
    pub fn add_todo(&mut self, task: String) -> (count: usize)
        requires
            old(self)@.next_id < i32::MAX,
        ensures
            final(self)@ == spec_add_todo(old(self)@, task),
            count == final(self)@.todos.len(),
    {
        let todo = Todo { id: self.next_id, task, completed: false };
        self.todos.push(todo);
        self.next_id = self.next_id + 1;
        self.todos.len()
    }

    /// All tasks, or `None` where there are none.
    pub fn todos(&self) -> (res: Option<Vec<Todo>>)
        ensures
            res is None <==> self@.todos.len() == 0,
            res matches Some(v) ==> v@ == self@.todos,
    {
        if self.todos.len() == 0 {
            None
        } else {
            Some(copy_todos(&self.todos))
        }
    }

    /// The first task whose id `id_text` spells; `None` where the text is
    /// no `i32` or no task has that id.
    pub fn todo_by_id(&self, id_text: &str) -> (res: Option<Todo>)
        ensures
            res == match spec_parse_i32(id_text@) {
                Some(id) => spec_find(self@, id),
                None => None,
            },
    {
        match parse_i32(id_text) {
            None => None,
            Some(id) => match index_of(&self.todos, id) {
                Some(i) => Some(self.todos[i].duplicate()),
                None => None,
            },
        }
    }

    /// Marks done the first task whose id `id_text` spells, and returns it
    /// as it is now; `None`, with nothing changed, where the text is no
    /// `i32` or no task has that id.
    pub fn mark_as_complete(&mut self, id_text: &str) -> (res: Option<Todo>)
        ensures
            final(self)@ == match spec_parse_i32(id_text@) {
                Some(id) => spec_mark_complete(old(self)@, id),
                None => old(self)@,
            },
            res == match spec_parse_i32(id_text@) {
                Some(id) => match spec_find(old(self)@, id) {
                    Some(t) => Some(Todo { completed: true, ..t }),
                    None => None,
                },
                None => None,
            },
    {
        match parse_i32(id_text) {
            None => None,
            Some(id) => match index_of(&self.todos, id) {
                Some(i) => {
                    self.todos[i].completed = true;
                    Some(self.todos[i].duplicate())
                },
                None => None,
            },
        }
    }

    /// Removes every task whose id `id_text` spells; returns whether one was
    /// removed. Nothing changes where the text is no `i32`.
    pub fn delete_todo_by_id(&mut self, id_text: &str) -> (removed: bool)
        ensures
            final(self)@ == match spec_parse_i32(id_text@) {
                Some(id) => spec_delete(old(self)@, id),
                None => old(self)@,
            },
            removed == match spec_parse_i32(id_text@) {
                Some(id) => first_match(old(self)@.todos, has_id(id)) is Some,
                None => false,
            },
            removed == (final(self)@.todos.len() < old(self)@.todos.len()),
    {
        match parse_i32(id_text) {
            None => false,
            Some(id) => {
                let ghost s = self.todos@;
                let mut kept: Vec<Todo> = Vec::new();
                let mut i: usize = 0;
                while i < self.todos.len()
                    invariant
                        s == self.todos@,
                        i <= s.len(),
                        kept@ == s.take(i as int).filter(lacks_id(id)),
                        kept@.len() == i <==> first_match(s.take(i as int), has_id(id)) is None,
                        kept@.len() <= i,
                    decreases s.len() - i,
                {
                    proof {
                        lemma_filter_take_step(s, lacks_id(id), i as int);
                        assert(s.take(i + 1) =~= s.take(i as int).push(s[i as int]));
                        lemma_first_match_push(s.take(i as int), s[i as int], has_id(id));
                    }
                    if self.todos[i].id != id {
                        kept.push(self.todos[i].duplicate());
                    }
                    i = i + 1;
                }
                assert(s.take(i as int) =~= s);
                let removed = kept.len() < self.todos.len();
                self.todos = kept;
                removed
            },
        }
    }

    /// The tasks that `status` selects: `completed` or `pending`; `None`
    /// for any other status.
    pub fn filter_todo(&self, status: &str) -> (res: Option<Vec<Todo>>)
        ensures
            res is None <==> spec_status_filter(status@) is None,
            res matches Some(v) ==> v@ == self@.todos.filter(
                keeps(spec_status_filter(status@)->0),
            ),
    {
        match status_filter(status) {
            None => None,
            Some(filter) => Some(filter_todos(&self.todos, filter)),
        }
    }

    /// Replaces the whole list with saved tasks and next id; returns how
    /// many tasks there are now.
    pub fn load_todos(&mut self, next_id: i32, todos: Vec<Todo>) -> (count: usize)
        ensures
            final(self)@ == (TodoListView { next_id, todos: todos@ }),
            count == todos@.len(),
    {
        self.next_id = next_id;
        self.todos = todos;
        self.todos.len()
    }

    /// Removes every task; the next task gets the id 1 again.
    pub fn clear_todos(&mut self)
        ensures
            final(self)@ == spec_empty_list(),
    {
        self.next_id = 1;
        self.todos = Vec::new();
    }

    /// How many tasks there are, how many are done and how many are not.
    pub fn stats(&self) -> (res: TodoStats)
        ensures
            res.total == self@.todos.len(),
            res.completed == self@.todos.filter(keeps(StatusFilter::Completed)).len(),
            res.pending == res.total - res.completed,
    {
        let ghost s = self.todos@;
        let mut completed: usize = 0;
        let mut i: usize = 0;
        while i < self.todos.len()
            invariant
                s == self.todos@,
                i <= s.len(),
                completed == s.take(i as int).filter(keeps(StatusFilter::Completed)).len(),
                completed <= i,
            decreases s.len() - i,
        {
            proof {
                lemma_filter_take_step(s, keeps(StatusFilter::Completed), i as int);
            }
            if self.todos[i].completed {
                completed = completed + 1;
            }
            i = i + 1;
        }
        assert(s.take(i as int) =~= s);
        TodoStats { total: self.todos.len(), completed, pending: self.todos.len() - completed }
    }
}

} // verus!
