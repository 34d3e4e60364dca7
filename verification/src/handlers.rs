use vstd::prelude::*;

use crate::errors::ApplicationError;
use crate::model::{
    EntryView, SessionState, TodoList, contains_id, filter_of_sort, flipped, index_of_id,
    spec_create, spec_delete, spec_filter_of_sort, spec_filtered, spec_toggle, TodoView,
};
use crate::render::{render_item, render_items, render_page, spec_render_item, spec_render_items,
    spec_render_page};

verus! {

/// Serves the list page: on a session's first visit (no stored state) it
/// seeds the single default item and a zero counter, on any later visit it
/// leaves the state exactly as it was; either way it renders the full page
/// over the resulting list.
pub fn root(state: Option<SessionState>) -> (r: (SessionState, String))
    ensures
        state matches Some(s) ==> r.0 == s,
        state is None ==> r.0.index == 0 && r.0.todos@ == SessionState::spec_seed_entries()
            && r.0.wf(),
        r.1@ == spec_render_page(r.0.todos@),
{
    let s = match state {
        Some(s) => s,
        None => SessionState::seeded(),
    };
    let page = render_page(&s.todos.entries);
    (s, page)
}

/// Serves the filtered list fragment: applies the filter the sort field
/// names and renders the surviving items, in ascending-id order, as one
/// fragment.
pub fn get_todos(list: &TodoList, sort: &String) -> (frag: String)
    ensures
        frag@ == spec_render_items(spec_filtered(list@, spec_filter_of_sort(sort@))),
{
    let f = filter_of_sort(sort);
    let selected = list.filtered(f);
    render_items(&selected)
}

/// Serves a create request: allocates the id one past the counter, advances
/// the counter, appends the new item (not done), and renders the new item's
/// fragment.
pub fn create_todo(state: &mut SessionState, content: String) -> (frag: String)
    requires
        old(state).wf(),
        old(state).index < usize::MAX,
    ensures
        final(state).wf(),
        final(state).index == old(state).index + 1,
        final(state).todos@ == spec_create(
            old(state).todos@,
            (old(state).index + 1) as usize,
            content@,
        ),
        frag@ == spec_render_item(
            EntryView {
                id: (old(state).index + 1) as usize,
                todo: TodoView { content: content@, done: false },
            },
        ),
{
    let new_id = state.create(content);
    let last = state.todos.entries.len() - 1;
    proof {
        assert(state.todos@[last as int] == state.todos.entries@[last as int]@);
    }
    render_item(new_id, &state.todos.entries[last].todo)
}

/// Serves a toggle request: flips the done flag of the item stored under
/// `id` and renders the updated item's fragment, or reports not-found and
/// leaves the list unchanged.
pub fn put_todo(list: &mut TodoList, id: usize) -> (r: Result<String, ApplicationError>)
    requires
        old(list).wf(),
    ensures
        final(list).wf(),
        final(list)@ == spec_toggle(old(list)@, id),
        contains_id(old(list)@, id) ==> (r matches Ok(frag) && frag@ == spec_render_item(
            flipped(old(list)@[index_of_id(old(list)@, id)]),
        )),
        !contains_id(old(list)@, id) ==> final(list)@ == old(list)@ && (r matches Err(e)
            && e is NotFound),
{
    match list.toggle(id) {
        Ok(todo) => {
            proof {
                let i = index_of_id(old(list)@, id);
                assert(0 <= i < old(list)@.len() && old(list)@[i].id == id);
            }
            Ok(render_item(id, &todo))
        },
        Err(e) => Err(e),
    }
}

/// Serves a delete request: removes the item stored under `id` and
/// acknowledges with no body, or reports not-found and leaves the list
/// unchanged.
pub fn delete_todo(list: &mut TodoList, id: usize) -> (r: Result<(), ApplicationError>)
    requires
        old(list).wf(),
    ensures
        final(list).wf(),
        final(list)@ == spec_delete(old(list)@, id),
        contains_id(old(list)@, id) ==> r is Ok,
        !contains_id(old(list)@, id) ==> final(list)@ == old(list)@ && (r matches Err(e)
            && e is NotFound),
{
    list.delete(id)
}

} // verus!
