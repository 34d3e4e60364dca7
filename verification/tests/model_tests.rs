use todomvc::errors::ApplicationError;
use todomvc::model::{Filter, SessionState, TodoList, filter_of_sort};

fn ids(list: &TodoList) -> Vec<usize> {
    list.entries.iter().map(|e| e.id).collect()
}

#[test]
fn seeded_has_single_default_item() {
    let s = SessionState::seeded();
    assert_eq!(s.index, 0);
    assert_eq!(s.todos.entries.len(), 1);
    assert_eq!(s.todos.entries[0].id, 0);
    assert_eq!(s.todos.entries[0].todo.content, "A faire");
    assert!(!s.todos.entries[0].todo.done);
}

#[test]
fn create_assigns_contiguous_ascending_ids() {
    let mut s = SessionState::seeded();
    for n in 1..=5usize {
        let new_id = s.create(format!("item {n}"));
        assert_eq!(new_id, n);
        assert_eq!(s.index, n);
    }
    assert_eq!(ids(&s.todos), vec![0, 1, 2, 3, 4, 5]);
}

#[test]
fn toggle_flips_done_and_is_its_own_inverse() {
    let mut s = SessionState::seeded();
    s.create(String::from("laundry"));
    assert!(!s.todos.entries[1].todo.done);

    let t = s.todos.toggle(1).unwrap();
    assert!(t.done);
    assert_eq!(t.content, "laundry");
    assert!(s.todos.entries[1].todo.done);

    let t = s.todos.toggle(1).unwrap();
    assert!(!t.done);
    assert!(!s.todos.entries[1].todo.done);
    assert_eq!(ids(&s.todos), vec![0, 1]);
}

#[test]
fn toggle_missing_id_is_not_found_and_changes_nothing() {
    let mut s = SessionState::seeded();
    s.create(String::from("laundry"));
    let before: Vec<(usize, String, bool)> = s
        .todos
        .entries
        .iter()
        .map(|e| (e.id, e.todo.content.clone(), e.todo.done))
        .collect();

    let r = s.todos.toggle(7);
    assert!(matches!(r, Err(ApplicationError::NotFound)));

    let after: Vec<(usize, String, bool)> = s
        .todos
        .entries
        .iter()
        .map(|e| (e.id, e.todo.content.clone(), e.todo.done))
        .collect();
    assert_eq!(before, after);
}

#[test]
fn delete_missing_id_is_not_found_and_changes_nothing() {
    let mut s = SessionState::seeded();
    s.create(String::from("laundry"));

    let r = s.todos.delete(2);
    assert!(matches!(r, Err(ApplicationError::NotFound)));
    assert_eq!(ids(&s.todos), vec![0, 1]);
}

#[test]
fn deleted_id_is_never_reused() {
    let mut s = SessionState::seeded();
    s.create(String::from("one"));
    s.create(String::from("two"));

    s.todos.delete(1).unwrap();
    assert_eq!(ids(&s.todos), vec![0, 2]);

    let new_id = s.create(String::from("three"));
    assert_eq!(new_id, 3);
    assert_eq!(ids(&s.todos), vec![0, 2, 3]);
}

#[test]
fn filtered_done_keeps_exactly_done_items_in_order() {
    let mut s = SessionState::seeded();
    s.create(String::from("one"));
    s.create(String::from("two"));
    s.create(String::from("three"));
    s.todos.toggle(1).unwrap();
    s.todos.toggle(3).unwrap();

    let done = s.todos.filtered(Filter::Done);
    let done_ids: Vec<usize> = done.iter().map(|e| e.id).collect();
    assert_eq!(done_ids, vec![1, 3]);
    assert!(done.iter().all(|e| e.todo.done));

    let not_done = s.todos.filtered(Filter::NotDone);
    let not_done_ids: Vec<usize> = not_done.iter().map(|e| e.id).collect();
    assert_eq!(not_done_ids, vec![0, 2]);
    assert!(not_done.iter().all(|e| !e.todo.done));

    let all = s.todos.filtered(Filter::All);
    let all_ids: Vec<usize> = all.iter().map(|e| e.id).collect();
    assert_eq!(all_ids, vec![0, 1, 2, 3]);
}

#[test]
fn empty_list_filters_to_nothing() {
    let list = TodoList::new();
    assert_eq!(list.len(), 0);
    assert!(list.filtered(Filter::All).is_empty());
    assert!(list.filtered(Filter::Done).is_empty());
    assert!(list.filtered(Filter::NotDone).is_empty());
}

#[test]
fn sort_field_selects_the_filter_with_fallback() {
    assert_eq!(filter_of_sort(&String::from("all")), Filter::All);
    assert_eq!(filter_of_sort(&String::from("done")), Filter::Done);
    assert_eq!(filter_of_sort(&String::from("not done")), Filter::NotDone);
    assert_eq!(filter_of_sort(&String::from("anything else")), Filter::NotDone);
    assert_eq!(filter_of_sort(&String::from("")), Filter::NotDone);
}

#[test]
fn error_response_parts() {
    let (status, body) = ApplicationError::NotFound.response_parts();
    assert_eq!(status, 404);
    assert_eq!(body, "Not found");

    let (status, body) =
        ApplicationError::InternalError(String::from("session store failed")).response_parts();
    assert_eq!(status, 500);
    assert_eq!(body, "session store failed");
}
