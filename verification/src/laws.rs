use vstd::prelude::*;

use crate::model::{
    EntryView, Filter, SessionState, contains_id, entries_ordered, index_of_id,
    lemma_index_of_id_unique, lemma_toggle_ordered, spec_create, spec_delete, spec_filtered,
    spec_keeps, spec_toggle,
};

verus! {

/// A freshly seeded session holds exactly the id zero.
pub proof fn lemma_seed_ids()
    ensures
        forall|id: usize|
            #[trigger] contains_id(SessionState::spec_seed_entries(), id) <==> id == 0,
{
    let s = SessionState::spec_seed_entries();
    assert forall|id: usize| contains_id(s, id) <==> id == 0 by {
        if contains_id(s, id) {
            let i = choose|i: int| 0 <= i < s.len() && s[i].id == id;
            assert(i == 0);
        }
        if id == 0 {
            assert(s[0].id == 0);
        }
    }
}

/// Creating from a session that holds exactly the ids zero through the
/// counter extends that set by exactly the one new id: afterwards the ids
/// are exactly zero through the new counter value.
pub proof fn lemma_create_ids_contiguous(entries: Seq<EntryView>, n: usize, content: Seq<char>)
    requires
        n < usize::MAX,
        forall|id: usize| #[trigger] contains_id(entries, id) <==> id <= n,
    ensures
        forall|id: usize|
            #[trigger] contains_id(spec_create(entries, (n + 1) as usize, content), id) <==> id
                <= n + 1,
{
    let created = spec_create(entries, (n + 1) as usize, content);
    assert forall|id: usize| contains_id(created, id) <==> id <= n + 1 by {
        if contains_id(created, id) {
            let i = choose|i: int| 0 <= i < created.len() && created[i].id == id;
            if i < entries.len() {
                assert(entries[i].id == id);
                assert(contains_id(entries, id));
            }
        }
        if id <= n + 1 {
            if id <= n {
                assert(contains_id(entries, id));
                let i = choose|i: int| 0 <= i < entries.len() && entries[i].id == id;
                assert(created[i].id == id);
                assert(contains_id(created, id));
            } else {
                assert(created[entries.len() as int].id == id);
                assert(contains_id(created, id));
            }
        }
    }
}

/// Toggling is its own inverse: toggling the same id twice returns the list
/// to exactly its original value.
pub proof fn lemma_toggle_involutive(entries: Seq<EntryView>, id: usize)
    requires
        entries_ordered(entries),
    ensures
        spec_toggle(spec_toggle(entries, id), id) == entries,
{
    if contains_id(entries, id) {
        let i = index_of_id(entries, id);
        assert(0 <= i < entries.len() && entries[i].id == id);
        let once = spec_toggle(entries, id);
        lemma_toggle_ordered(entries, id);
        assert(once[i].id == id);
        lemma_index_of_id_unique(once, id, i);
        assert(spec_toggle(once, id) =~= entries);
    }
}

/// Deleting an id removes it: the deleted list does not contain it.
pub proof fn lemma_delete_removes(entries: Seq<EntryView>, id: usize)
    requires
        entries_ordered(entries),
    ensures
        !contains_id(spec_delete(entries, id), id),
{
    if contains_id(entries, id) {
        let i = index_of_id(entries, id);
        assert(0 <= i < entries.len() && entries[i].id == id);
        let r = entries.remove(i);
        assert forall|j: int| 0 <= j < r.len() implies r[j].id != id by {
            let j0: int = if j < i {
                j
            } else {
                j + 1
            };
            assert(r[j] == entries[j0]);
            if entries[j0].id == id {
                lemma_index_of_id_unique(entries, id, j0);
                lemma_index_of_id_unique(entries, id, i);
            }
        }
    }
}

/// Toggling changes no id: the list contains an id after a toggle exactly
/// when it contained it before.
pub proof fn lemma_toggle_keeps_ids(entries: Seq<EntryView>, id: usize)
    ensures
        forall|x: usize|
            contains_id(#[trigger] spec_toggle(entries, id), x) <==> contains_id(entries, x),
{
    let t = spec_toggle(entries, id);
    if contains_id(entries, id) {
        assert(t.len() == entries.len());
        assert forall|x: usize| contains_id(t, x) <==> contains_id(entries, x) by {
            if contains_id(t, x) {
                let k = choose|k: int| 0 <= k < t.len() && t[k].id == x;
                assert(entries[k].id == x);
            }
            if contains_id(entries, x) {
                let k = choose|k: int| 0 <= k < entries.len() && entries[k].id == x;
                assert(t[k].id == x);
            }
        }
    }
}

/// Deleting one id leaves every other id exactly as it was.
pub proof fn lemma_delete_keeps_other_ids(entries: Seq<EntryView>, id: usize, other: usize)
    requires
        entries_ordered(entries),
        other != id,
    ensures
        contains_id(spec_delete(entries, id), other) <==> contains_id(entries, other),
{
    if contains_id(entries, id) {
        let i = index_of_id(entries, id);
        assert(0 <= i < entries.len() && entries[i].id == id);
        let r = entries.remove(i);
        if contains_id(r, other) {
            let j = choose|j: int| 0 <= j < r.len() && r[j].id == other;
            let j0: int = if j < i {
                j
            } else {
                j + 1
            };
            assert(r[j] == entries[j0]);
            assert(contains_id(entries, other));
        }
        if contains_id(entries, other) {
            let k = choose|k: int| 0 <= k < entries.len() && entries[k].id == other;
            assert(k != i);
            let k1: int = if k < i {
                k
            } else {
                k - 1
            };
            assert(r[k1] == entries[k]);
            assert(contains_id(r, other));
        }
    }
}

/// A deleted id never reappears: an id at or below the counter that the
/// list does not hold is still absent after a create, which always
/// allocates the id one past the counter.
pub proof fn lemma_create_never_reuses(
    entries: Seq<EntryView>,
    index: usize,
    id: usize,
    content: Seq<char>,
)
    requires
        index < usize::MAX,
        !contains_id(entries, id),
        id <= index,
    ensures
        !contains_id(spec_create(entries, (index + 1) as usize, content), id),
{
    let c = spec_create(entries, (index + 1) as usize, content);
    if contains_id(c, id) {
        let k = choose|k: int| 0 <= k < c.len() && c[k].id == id;
        if k < entries.len() {
            assert(entries[k].id == id);
            assert(contains_id(entries, id));
        }
    }
}

/// Toggling or deleting keeps every id at or below the counter, so the
/// session invariant survives every operation and a later create still
/// allocates a fresh id.
pub proof fn lemma_ids_stay_bounded(entries: Seq<EntryView>, id: usize, index: usize)
    requires
        entries_ordered(entries),
        forall|k: int| 0 <= k < entries.len() ==> (#[trigger] entries[k].id) <= index,
    ensures
        forall|k: int|
            0 <= k < spec_toggle(entries, id).len() ==> (#[trigger] spec_toggle(entries, id)[k].id)
                <= index,
        forall|k: int|
            0 <= k < spec_delete(entries, id).len() ==> (#[trigger] spec_delete(entries, id)[k].id)
                <= index,
{
    lemma_toggle_ordered(entries, id);
    if contains_id(entries, id) {
        let i = index_of_id(entries, id);
        assert(0 <= i < entries.len() && entries[i].id == id);
        let r = entries.remove(i);
        assert forall|k: int| 0 <= k < r.len() implies (#[trigger] r[k].id) <= index by {
            let k0: int = if k < i {
                k
            } else {
                k + 1
            };
            assert(r[k] == entries[k0]);
        }
    }
}

/// What filtering keeps: an entry is in the filtered list exactly when it is
/// in the original list and the filter keeps it; in particular the done
/// filter keeps exactly the done items and any fallback keeps exactly the
/// not-done ones.
pub proof fn lemma_filtered_membership(entries: Seq<EntryView>, f: Filter)
    ensures
        forall|x: EntryView|
            #[trigger] spec_filtered(entries, f).contains(x) <==> entries.contains(x)
                && spec_keeps(f, x),
    decreases entries.len(),
{
    if entries.len() > 0 {
        let dl = entries.drop_last();
        lemma_filtered_membership(dl, f);
        let rest = spec_filtered(dl, f);
        let out = spec_filtered(entries, f);
        assert forall|x: EntryView| out.contains(x) <==> entries.contains(x) && spec_keeps(
            f,
            x,
        ) by {
            if out.contains(x) {
                let k = choose|k: int| 0 <= k < out.len() && out[k] == x;
                if spec_keeps(f, entries.last()) && k == rest.len() {
                    assert(x == entries.last());
                    assert(entries[entries.len() - 1] == x);
                } else {
                    assert(rest[k] == x);
                    assert(rest.contains(x));
                    assert(dl.contains(x));
                    let j = choose|j: int| 0 <= j < dl.len() && dl[j] == x;
                    assert(entries[j] == x);
                }
            }
            if entries.contains(x) && spec_keeps(f, x) {
                let k = choose|k: int| 0 <= k < entries.len() && entries[k] == x;
                if k == entries.len() - 1 {
                    if spec_keeps(f, entries.last()) {
                        assert(out[rest.len() as int] == x);
                        assert(out.contains(x));
                    }
                } else {
                    assert(dl[k] == x);
                    assert(dl.contains(x));
                    assert(rest.contains(x));
                    let j = choose|j: int| 0 <= j < rest.len() && rest[j] == x;
                    assert(out[j] == x);
                    assert(out.contains(x));
                }
            }
        }
    }
}

/// The all filter keeps everything: filtering with it returns the whole
/// list, every item in its original ascending-id order.
pub proof fn lemma_filter_all_identity(entries: Seq<EntryView>)
    ensures
        spec_filtered(entries, Filter::All) == entries,
    decreases entries.len(),
{
    if entries.len() > 0 {
        lemma_filter_all_identity(entries.drop_last());
        assert(spec_filtered(entries, Filter::All) =~= entries);
    } else {
        assert(spec_filtered(entries, Filter::All) =~= entries);
    }
}

/// Filtering keeps the ascending-id order of a sorted list.
pub proof fn lemma_filtered_ordered(entries: Seq<EntryView>, f: Filter)
    requires
        entries_ordered(entries),
    ensures
        entries_ordered(spec_filtered(entries, f)),
    decreases entries.len(),
{
    if entries.len() > 0 {
        let dl = entries.drop_last();
        assert(entries_ordered(dl));
        lemma_filtered_ordered(dl, f);
        lemma_filtered_membership(dl, f);
        let rest = spec_filtered(dl, f);
        let out = spec_filtered(entries, f);
        if spec_keeps(f, entries.last()) {
            assert forall|p: int, q: int| 0 <= p < q < out.len() implies out[p].id < out[q].id by {
                if q < rest.len() {
                    assert(out[p] == rest[p] && out[q] == rest[q]);
                } else {
                    assert(out[q] == entries.last());
                    assert(out[p] == rest[p]);
                    assert(rest.contains(rest[p]));
                    assert(dl.contains(rest[p]));
                    let j = choose|j: int| 0 <= j < dl.len() && dl[j] == rest[p];
                    assert(entries[j] == rest[p]);
                    assert(entries[j].id < entries[entries.len() - 1].id);
                }
            }
        }
    }
}

} // verus!
