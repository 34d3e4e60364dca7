use todomvc::errors::ApplicationError;
use todomvc::handlers::{create_todo, delete_todo, get_todos, put_todo, root};
use todomvc::render::render_item;

#[test]
fn first_visit_seeds_exactly_once() {
    let (state, page) = root(None);
    assert_eq!(state.index, 0);
    assert_eq!(state.todos.entries.len(), 1);
    assert_eq!(state.todos.entries[0].id, 0);
    assert_eq!(state.todos.entries[0].todo.content, "A faire");
    assert!(!state.todos.entries[0].todo.done);
    assert!(page.contains("id=\"todo-0\""));

    let (again, _) = root(Some(state));
    assert_eq!(again.index, 0);
    assert_eq!(again.todos.entries.len(), 1);
    assert_eq!(again.todos.entries[0].todo.content, "A faire");
}

#[test]
fn create_responds_with_the_new_item_fragment() {
    let (mut state, _) = root(None);
    let frag = create_todo(&mut state, String::from("Buy milk"));
    assert_eq!(frag, render_item(1, &state.todos.entries[1].todo));
    assert_eq!(state.index, 1);
    assert_eq!(state.todos.entries[1].id, 1);
    assert_eq!(state.todos.entries[1].todo.content, "Buy milk");
    assert!(!state.todos.entries[1].todo.done);
}

#[test]
fn toggle_and_delete_on_missing_ids_are_not_found() {
    let (mut state, _) = root(None);
    assert!(matches!(put_todo(&mut state.todos, 9), Err(ApplicationError::NotFound)));
    assert!(matches!(delete_todo(&mut state.todos, 9), Err(ApplicationError::NotFound)));
    assert_eq!(state.todos.entries.len(), 1);
}

#[test]
fn full_session_scenario() {
    // First visit seeds {0: ("A faire", false)}.
    let (mut state, _) = root(None);
    assert_eq!(state.todos.entries.len(), 1);

    // Creating "Buy milk" yields id 1, not done.
    create_todo(&mut state, String::from("Buy milk"));
    let snapshot: Vec<(usize, String, bool)> = state
        .todos
        .entries
        .iter()
        .map(|e| (e.id, e.todo.content.clone(), e.todo.done))
        .collect();
    assert_eq!(
        snapshot,
        vec![(0, String::from("A faire"), false), (1, String::from("Buy milk"), false)]
    );

    // Toggling id 1 marks it done and responds with its fragment.
    let frag = put_todo(&mut state.todos, 1).unwrap();
    assert!(state.todos.entries[1].todo.done);
    assert_eq!(frag, render_item(1, &state.todos.entries[1].todo));

    // The done fragment holds exactly item 1.
    let done_frag = get_todos(&state.todos, &String::from("done"));
    assert_eq!(done_frag, render_item(1, &state.todos.entries[1].todo));

    // Deleting id 1 acknowledges with no body.
    delete_todo(&mut state.todos, 1).unwrap();

    // The full list now holds only item 0.
    let all_frag = get_todos(&state.todos, &String::from("all"));
    assert_eq!(all_frag, render_item(0, &state.todos.entries[0].todo));
    let ids: Vec<usize> = state.todos.entries.iter().map(|e| e.id).collect();
    assert_eq!(ids, vec![0]);
}

#[test]
fn unknown_sort_values_fall_back_to_not_done() {
    let (mut state, _) = root(None);
    create_todo(&mut state, String::from("Buy milk"));
    put_todo(&mut state.todos, 1).unwrap();

    // Item 1 is done, item 0 is not: an unrecognized sort keeps only item 0.
    let frag = get_todos(&state.todos, &String::from("mystery"));
    assert_eq!(frag, render_item(0, &state.todos.entries[0].todo));
}
