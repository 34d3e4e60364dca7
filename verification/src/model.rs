use vstd::prelude::*;

use crate::errors::ApplicationError;

verus! {

/// One todo item: its text, set at creation and immutable thereafter, and
/// whether it is done.
#[derive(Debug)]
pub struct Todo {
    pub content: String,
    pub done: bool,
}

/// The mathematical image of a `Todo`: its text as a sequence of characters
/// and its done flag.
pub struct TodoView {
    pub content: Seq<char>,
    pub done: bool,
}

impl View for Todo {
    type V = TodoView;

    open spec fn view(&self) -> TodoView {
        TodoView { content: self.content@, done: self.done }
    }
}

impl Clone for Todo {
    fn clone(&self) -> (r: Todo)
        ensures
            r@ == self@,
    {
        Todo { content: self.content.clone(), done: self.done }
    }
}

/// One entry of the list: the id and the item stored under it.
#[derive(Debug)]
pub struct Entry {
    pub id: usize,
    pub todo: Todo,
}

/// The mathematical image of an `Entry`.
pub struct EntryView {
    pub id: usize,
    pub todo: TodoView,
}

impl View for Entry {
    type V = EntryView;

    open spec fn view(&self) -> EntryView {
        EntryView { id: self.id, todo: self.todo@ }
    }
}

impl Clone for Entry {
    fn clone(&self) -> (r: Entry)
        ensures
            r@ == self@,
    {
        Entry { id: self.id, todo: self.todo.clone() }
    }
}

/// Ids appear in strictly increasing order, so every id is unique and the
/// list is sorted by ascending id.
pub open spec fn entries_ordered(entries: Seq<EntryView>) -> bool {
    forall|i: int, j: int|
        0 <= i < j < entries.len() ==> entries[i].id < entries[j].id
}

/// Some entry of the list carries this id.
pub open spec fn contains_id(entries: Seq<EntryView>, id: usize) -> bool {
    exists|i: int| 0 <= i < entries.len() && entries[i].id == id
}

/// The position of the entry carrying this id (unique when the list is
/// ordered; meaningful only when `contains_id` holds).
pub open spec fn index_of_id(entries: Seq<EntryView>, id: usize) -> int {
    choose|i: int| 0 <= i < entries.len() && entries[i].id == id
}

/// The entry with its done flag flipped.
pub open spec fn flipped(e: EntryView) -> EntryView {
    EntryView { id: e.id, todo: TodoView { content: e.todo.content, done: !e.todo.done } }
}

/// The list after toggling `id`: the entry carrying `id` has its done flag
/// flipped, every other entry is unchanged; a list without `id` is unchanged.
pub open spec fn spec_toggle(entries: Seq<EntryView>, id: usize) -> Seq<EntryView> {
    if contains_id(entries, id) {
        let i = index_of_id(entries, id);
        entries.update(i, flipped(entries[i]))
    } else {
        entries
    }
}

/// The list after deleting `id`: the entry carrying `id` is removed, every
/// other entry keeps its place; a list without `id` is unchanged.
pub open spec fn spec_delete(entries: Seq<EntryView>, id: usize) -> Seq<EntryView> {
    if contains_id(entries, id) {
        entries.remove(index_of_id(entries, id))
    } else {
        entries
    }
}

/// The list after creating an item: a new entry with the given id, the given
/// content and an unset done flag is appended at the end.
pub open spec fn spec_create(entries: Seq<EntryView>, id: usize, content: Seq<char>) -> Seq<
    EntryView,
> {
    entries.push(EntryView { id, todo: TodoView { content, done: false } })
}

/// In an ordered list the entry carrying an id sits at exactly one position:
/// any position that carries the id is the one `index_of_id` picks.
pub proof fn lemma_index_of_id_unique(entries: Seq<EntryView>, id: usize, i: int)
    requires
        entries_ordered(entries),
        0 <= i < entries.len(),
        entries[i].id == id,
    ensures
        contains_id(entries, id),
        index_of_id(entries, id) == i,
{
    assert(contains_id(entries, id));
    let j = index_of_id(entries, id);
    if i < j {
        assert(entries[i].id < entries[j].id);
    }
    if j < i {
        assert(entries[j].id < entries[i].id);
    }
}

/// Toggling keeps the list sorted: it changes no id and no position.
pub proof fn lemma_toggle_ordered(entries: Seq<EntryView>, id: usize)
    requires
        entries_ordered(entries),
    ensures
        entries_ordered(spec_toggle(entries, id)),
        spec_toggle(entries, id).len() == entries.len(),
        forall|k: int|
            0 <= k < entries.len() ==> #[trigger] spec_toggle(entries, id)[k].id == entries[k].id,
{
    if contains_id(entries, id) {
        let i = index_of_id(entries, id);
        assert(0 <= i < entries.len() && entries[i].id == id);
    }
}

/// Deleting keeps the list sorted: the surviving entries keep their relative
/// order.
pub proof fn lemma_delete_ordered(entries: Seq<EntryView>, id: usize)
    requires
        entries_ordered(entries),
    ensures
        entries_ordered(spec_delete(entries, id)),
{
    if contains_id(entries, id) {
        let i = index_of_id(entries, id);
        assert(0 <= i < entries.len() && entries[i].id == id);
        let r = entries.remove(i);
        assert forall|p: int, q: int| 0 <= p < q < r.len() implies r[p].id < r[q].id by {
            let p0: int = if p < i {
                p
            } else {
                p + 1
            };
            let q0: int = if q < i {
                q
            } else {
                q + 1
            };
            assert(r[p] == entries[p0]);
            assert(r[q] == entries[q0]);
            assert(entries[p0].id < entries[q0].id);
        }
    }
}

/// The three list filters the sort field selects between.
#[derive(Debug, Clone, Copy, PartialEq, Eq, Structural)]
pub enum Filter {
    All,
    Done,
    NotDone,
}

/// Whether the filter keeps this entry.
pub open spec fn spec_keeps(f: Filter, e: EntryView) -> bool {
    match f {
        Filter::All => true,
        Filter::Done => e.todo.done,
        Filter::NotDone => !e.todo.done,
    }
}

/// The filter a sort field selects: `"all"` and `"done"` name their filters,
/// any other value falls back to the not-done filter.
pub open spec fn spec_filter_of_sort(s: Seq<char>) -> Filter {
    if s == "all"@ {
        Filter::All
    } else if s == "done"@ {
        Filter::Done
    } else {
        Filter::NotDone
    }
}

/// Selects the filter named by a sort field value.
pub fn filter_of_sort(sort: &String) -> (f: Filter)
    ensures
        f == spec_filter_of_sort(sort@),
{
    if sort.eq(&String::from_str("all")) {
        Filter::All
    } else if sort.eq(&String::from_str("done")) {
        Filter::Done
    } else {
        Filter::NotDone
    }
}

/// The subsequence of entries the filter keeps, in their original order.
pub open spec fn spec_filtered(entries: Seq<EntryView>, f: Filter) -> Seq<EntryView>
    decreases entries.len(),
{
    if entries.len() == 0 {
        entries
    } else {
        let rest = spec_filtered(entries.drop_last(), f);
        if spec_keeps(f, entries.last()) {
            rest.push(entries.last())
        } else {
            rest
        }
    }
}

/// Whether the filter keeps this entry.
pub fn keeps(f: Filter, e: &Entry) -> (r: bool)
    ensures
        r == spec_keeps(f, e@),
{
    match f {
        Filter::All => true,
        Filter::Done => e.todo.done,
        Filter::NotDone => !e.todo.done,
    }
}

/// The view of a vector of entries.
pub open spec fn entries_view(v: Seq<Entry>) -> Seq<EntryView> {
    v.map_values(|e: Entry| e@)
}

/// The session's ordered todo list.
#[derive(Debug)]
pub struct TodoList {
    pub entries: Vec<Entry>,
}

impl View for TodoList {
    type V = Seq<EntryView>;

    open spec fn view(&self) -> Seq<EntryView> {
        entries_view(self.entries@)
    }
}

impl TodoList {
    /// The list invariant: entries sorted by strictly ascending id.
    pub open spec fn wf(&self) -> bool {
        entries_ordered(self@)
    }

    /// An empty list.
    pub fn new() -> (r: TodoList)
        ensures
            r@ =~= Seq::<EntryView>::empty(),
            r.wf(),
    {
        TodoList { entries: Vec::new() }
    }

    /// How many entries the list holds.
    pub fn len(&self) -> (n: usize)
        ensures
            n == self@.len(),
    {
        self.entries.len()
    }

    /// Flips the done flag of the item stored under `id`, returning the
    /// updated item, or reports that no item carries that id and leaves the
    /// list unchanged.
    pub fn toggle(&mut self, id: usize) -> (r: Result<Todo, ApplicationError>)
        requires
            old(self).wf(),
        ensures
            final(self).wf(),
            final(self)@ == spec_toggle(old(self)@, id),
            contains_id(old(self)@, id) ==> (r matches Ok(t) && t@ == flipped(
                old(self)@[index_of_id(old(self)@, id)],
            ).todo),
            !contains_id(old(self)@, id) ==> final(self)@ == old(self)@ && (r matches Err(e)
                && e is NotFound),
    {
        let ghost orig = self@;
        let n = self.entries.len();
        let mut i: usize = 0;
        while i < n
            invariant
                i <= n,
                n == self.entries@.len(),
                entries_ordered(orig),
                orig == old(self)@,
                self@ == orig,
                forall|k: int| 0 <= k < i ==> orig[k].id != id,
            decreases n - i,
        {
            assert(orig[i as int] == self.entries@[i as int]@);
            if self.entries[i].id == id {
                let content = self.entries[i].todo.content.clone();
                let done = self.entries[i].todo.done;
                let updated = Todo { content, done: !done };
                let result = updated.clone();
                self.entries.set(i, Entry { id, todo: updated });
                proof {
                    lemma_index_of_id_unique(orig, id, i as int);
                    assert(self@ =~= spec_toggle(orig, id));
                    lemma_toggle_ordered(orig, id);
                }
                return Ok(result);
            }
            i += 1;
        }
        assert(!contains_id(orig, id));
        Err(ApplicationError::NotFound)
    }

    /// Removes the item stored under `id`, or reports that no item carries
    /// that id and leaves the list unchanged.
    pub fn delete(&mut self, id: usize) -> (r: Result<(), ApplicationError>)
        requires
            old(self).wf(),
        ensures
            final(self).wf(),
            final(self)@ == spec_delete(old(self)@, id),
            contains_id(old(self)@, id) ==> r is Ok,
            !contains_id(old(self)@, id) ==> final(self)@ == old(self)@ && (r matches Err(e)
                && e is NotFound),
    {
        let ghost orig = self@;
        let n = self.entries.len();
        let mut i: usize = 0;
        while i < n
            invariant
                i <= n,
                n == self.entries@.len(),
                entries_ordered(orig),
                orig == old(self)@,
                self@ == orig,
                forall|k: int| 0 <= k < i ==> orig[k].id != id,
            decreases n - i,
        {
            assert(orig[i as int] == self.entries@[i as int]@);
            if self.entries[i].id == id {
                self.entries.remove(i);
                proof {
                    lemma_index_of_id_unique(orig, id, i as int);
                    assert(self@ =~= spec_delete(orig, id));
                    lemma_delete_ordered(orig, id);
                }
                return Ok(());
            }
            i += 1;
        }
        assert(!contains_id(orig, id));
        Err(ApplicationError::NotFound)
    }

    /// The entries the filter keeps, in their original (ascending-id) order.
    pub fn filtered(&self, f: Filter) -> (r: Vec<Entry>)
        ensures
            entries_view(r@) == spec_filtered(self@, f),
    {
        let mut out: Vec<Entry> = Vec::new();
        let n = self.entries.len();
        let mut i: usize = 0;
        proof {
            assert(entries_view(out@) =~= spec_filtered(self@.take(0), f));
        }
        while i < n
            invariant
                i <= n,
                n == self.entries@.len(),
                entries_view(out@) == spec_filtered(self@.take(i as int), f),
            decreases n - i,
        {
            let ghost pre = out@;
            assert(self@[i as int] == self.entries@[i as int]@);
            let e = &self.entries[i];
            if keeps(f, e) {
                out.push(e.clone());
            }
            proof {
                let v = self@;
                assert(v.take(i as int + 1).drop_last() =~= v.take(i as int));
                assert(v.take(i as int + 1).last() == v[i as int]);
                if spec_keeps(f, v[i as int]) {
                    assert(entries_view(out@) =~= spec_filtered(v.take(i as int), f).push(
                        v[i as int],
                    ));
                } else {
                    assert(entries_view(out@) =~= spec_filtered(v.take(i as int), f));
                }
            }
            i += 1;
        }
        proof {
            assert(self@.take(n as int) =~= self@);
        }
        out
    }
}

/// The whole per-session state: the id counter and the todo list.
///
/// The counter starts at zero when the session is seeded and moves only
/// forward; every id in the list is bounded by it, so a freshly allocated id
/// is never one that the list holds or ever held.
#[derive(Debug)]
pub struct SessionState {
    pub index: usize,
    pub todos: TodoList,
}

impl SessionState {
    /// The session invariant: the list is sorted by ascending id and every
    /// id is bounded by the counter.
    pub open spec fn wf(&self) -> bool {
        &&& self.todos.wf()
        &&& forall|k: int| 0 <= k < self.todos@.len() ==> (#[trigger] self.todos@[k].id) <= self.index
    }

    /// The entries of a freshly seeded session: exactly one item, id 0,
    /// content "A faire", not done.
    pub open spec fn spec_seed_entries() -> Seq<EntryView> {
        seq![EntryView { id: 0, todo: TodoView { content: "A faire"@, done: false } }]
    }

    /// The state seeded on a session's first visit to the list page: the
    /// counter at zero and the single seed item.
    pub fn seeded() -> (s: SessionState)
        ensures
            s.index == 0,
            s.todos@ == Self::spec_seed_entries(),
            s.wf(),
    {
        let mut entries: Vec<Entry> = Vec::new();
        entries.push(
            Entry { id: 0, todo: Todo { content: String::from_str("A faire"), done: false } },
        );
        let s = SessionState { index: 0, todos: TodoList { entries } };
        proof {
            assert(s.todos@ =~= Self::spec_seed_entries());
        }
        s
    }

    /// Creates an item: allocates the id one past the counter, advances the
    /// counter to it, and appends the new entry, not done, at the end. The
    /// new id was never in the list before.
    pub fn create(&mut self, content: String) -> (new_id: usize)
        requires
            old(self).wf(),
            old(self).index < usize::MAX,
        ensures
            final(self).wf(),
            new_id == old(self).index + 1,
            final(self).index == new_id,
            final(self).todos@ == spec_create(old(self).todos@, new_id, content@),
            !contains_id(old(self).todos@, new_id),
    {
        let ghost orig = self.todos@;
        let ghost c = content@;
        let new_id = self.index + 1;
        self.index = new_id;
        self.todos.entries.push(Entry { id: new_id, todo: Todo { content, done: false } });
        proof {
            assert forall|k: int| 0 <= k < orig.len() implies (#[trigger] orig[k].id)
                != new_id by {}
            assert(self.todos@ =~= spec_create(orig, new_id, c));
        }
        new_id
    }
}

} // verus!
