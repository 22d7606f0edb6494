use http_rust::todo::{status_filter, StatusFilter, Todo, TodoList};

fn todo(id: i32, task: &str, completed: bool) -> Todo {
    Todo { id, task: task.to_string(), completed }
}

fn same(a: &Todo, b: &Todo) -> bool {
    a.id == b.id && a.task == b.task && a.completed == b.completed
}

#[test]
fn add_assigns_ids_from_one() {
    let mut list = TodoList::new();
    assert_eq!(list.next_id(), 1);
    assert_eq!(list.add_todo("milk".to_string()), 1);
    assert_eq!(list.add_todo("eggs".to_string()), 2);
    assert_eq!(list.next_id(), 3);
    let all = list.todos().unwrap();
    assert!(same(&all[0], &todo(1, "milk", false)));
    assert!(same(&all[1], &todo(2, "eggs", false)));
}

#[test]
fn empty_list_has_no_todos() {
    let list = TodoList::new();
    assert!(list.todos().is_none());
}

#[test]
fn lookup_by_id_text() {
    let mut list = TodoList::new();
    list.add_todo("a".to_string());
    list.add_todo("b".to_string());
    assert!(same(&list.todo_by_id("2").unwrap(), &todo(2, "b", false)));
    assert!(list.todo_by_id("3").is_none());
    assert!(list.todo_by_id("abc").is_none());
    assert!(list.todo_by_id("").is_none());
}

#[test]
fn mark_as_complete_updates_and_reports() {
    let mut list = TodoList::new();
    list.add_todo("a".to_string());
    list.add_todo("b".to_string());
    let t = list.mark_as_complete("1").unwrap();
    assert!(same(&t, &todo(1, "a", true)));
    assert!(list.todo_by_id("1").unwrap().completed);
    assert!(!list.todo_by_id("2").unwrap().completed);
    assert!(list.mark_as_complete("9").is_none());
    assert!(list.mark_as_complete("x").is_none());
}

#[test]
fn delete_removes_every_task_with_the_id() {
    let mut list = TodoList::new();
    list.load_todos(5, vec![todo(1, "a", false), todo(2, "b", true), todo(1, "c", false)]);
    assert!(list.delete_todo_by_id("1"));
    let all = list.todos().unwrap();
    assert_eq!(all.len(), 1);
    assert!(same(&all[0], &todo(2, "b", true)));
    assert!(!list.delete_todo_by_id("1"));
    assert!(!list.delete_todo_by_id("one"));
}

#[test]
fn lookup_finds_the_first_of_equal_ids() {
    let mut list = TodoList::new();
    list.load_todos(3, vec![todo(1, "first", false), todo(1, "second", true)]);
    assert_eq!(list.todo_by_id("1").unwrap().task, "first");
    let t = list.mark_as_complete("1").unwrap();
    assert_eq!(t.task, "first");
}

#[test]
fn filters_by_status() {
    let mut list = TodoList::new();
    list.add_todo("a".to_string());
    list.add_todo("b".to_string());
    list.add_todo("c".to_string());
    list.mark_as_complete("2");
    let done = list.filter_todo("completed").unwrap();
    assert_eq!(done.len(), 1);
    assert_eq!(done[0].id, 2);
    let pending = list.filter_todo("pending").unwrap();
    assert_eq!(pending.iter().map(|t| t.id).collect::<Vec<_>>(), vec![1, 3]);
    assert!(list.filter_todo("done").is_none());
    assert!(list.filter_todo("").is_none());
}

#[test]
fn status_filter_names() {
    assert!(matches!(status_filter("completed"), Some(StatusFilter::Completed)));
    assert!(matches!(status_filter("pending"), Some(StatusFilter::Pending)));
    assert!(status_filter("Completed").is_none());
}

#[test]
fn stats_count_done_and_pending() {
    let mut list = TodoList::new();
    list.add_todo("a".to_string());
    list.add_todo("b".to_string());
    list.add_todo("c".to_string());
    list.mark_as_complete("1");
    list.mark_as_complete("3");
    let s = list.stats();
    assert_eq!((s.total, s.completed, s.pending), (3, 2, 1));
}

#[test]
fn load_replaces_and_clear_restarts() {
    let mut list = TodoList::new();
    list.add_todo("a".to_string());
    assert_eq!(list.load_todos(10, vec![todo(7, "x", true), todo(8, "y", false)]), 2);
    assert_eq!(list.next_id(), 10);
    assert_eq!(list.add_todo("z".to_string()), 3);
    assert_eq!(list.todo_by_id("10").unwrap().task, "z");
    list.clear_todos();
    assert!(list.todos().is_none());
    assert_eq!(list.next_id(), 1);
    assert_eq!(list.add_todo("again".to_string()), 1);
    assert_eq!(list.todo_by_id("1").unwrap().task, "again");
}

#[test]
fn add_then_find_returns_the_new_task() {
    let mut list = TodoList::new();
    list.add_todo("a".to_string());
    list.delete_todo_by_id("1");
    let id = list.next_id();
    list.add_todo("b".to_string());
    assert!(same(&list.todo_by_id(&id.to_string()).unwrap(), &todo(2, "b", false)));
}

#[test]
fn marking_twice_is_marking_once() {
    let mut list = TodoList::new();
    list.add_todo("a".to_string());
    list.mark_as_complete("1");
    let once: Vec<bool> = list.all().iter().map(|t| t.completed).collect();
    list.mark_as_complete("1");
    let twice: Vec<bool> = list.all().iter().map(|t| t.completed).collect();
    assert_eq!(once, twice);
}
