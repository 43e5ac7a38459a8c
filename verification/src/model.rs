//! The model of the store: a sequence of task views, oldest first.
//!
//! Each operation of [`crate::TaskManager`] is described by a function on
//! such sequences. An identifier names the first task that carries it.

use vstd::prelude::*;
use crate::task::TaskView;

verus! {

/// Whether some task in `s` carries the identifier `id`.
pub open spec fn has_id(s: Seq<TaskView>, id: Seq<char>) -> bool {
    exists|i: int| 0 <= i < s.len() && (#[trigger] s[i]).id == id
}

/// Whether `i` is the position of the first task in `s` that carries `id`.
pub open spec fn is_first_with_id(s: Seq<TaskView>, id: Seq<char>, i: int) -> bool {
    &&& 0 <= i < s.len()
    &&& s[i].id == id
    &&& forall|j: int| 0 <= j < i ==> (#[trigger] s[j]).id != id
}

/// The position of the first task in `s` that carries `id`, if there is one.
pub open spec fn position_of(s: Seq<TaskView>, id: Seq<char>) -> Option<int> {
    if exists|i: int| is_first_with_id(s, id, i) {
        Some(choose|i: int| is_first_with_id(s, id, i))
    } else {
        None
    }
}

/// Whether no two tasks in `s` carry the same identifier.
pub open spec fn ids_distinct(s: Seq<TaskView>) -> bool {
    forall|i: int, j: int|
        0 <= i < j < s.len() ==> (#[trigger] s[i]).id != (#[trigger] s[j]).id
}

/// The task that creation adds: the given identifier and title, not complete.
pub open spec fn new_task(id: Seq<char>, title: Seq<char>) -> TaskView {
    TaskView { id, title, complete: false }
}

/// The store after a task with `id` and `title` was created: the new task
/// stands last, behind everything that was there.
pub open spec fn after_create(s: Seq<TaskView>, id: Seq<char>, title: Seq<char>) -> Seq<TaskView> {
    s.push(new_task(id, title))
}

/// The task that deleting `id` hands back: the first one that carries `id`.
pub open spec fn deleted(s: Seq<TaskView>, id: Seq<char>) -> Option<TaskView> {
    match position_of(s, id) {
        Some(i) => Some(s[i]),
        None => None,
    }
}

/// The store after deleting `id`: the first task that carries `id` is gone and
/// the others keep their order; a store without such a task is unchanged.
pub open spec fn after_delete(s: Seq<TaskView>, id: Seq<char>) -> Seq<TaskView> {
    match position_of(s, id) {
        Some(i) => s.remove(i),
        None => s,
    }
}

/// `t` with its completion flag set to `complete` and nothing else changed.
pub open spec fn with_complete(t: TaskView, complete: bool) -> TaskView {
    TaskView { id: t.id, title: t.title, complete }
}

/// The task that setting the flag of `id` hands back: the first one that
/// carries `id`, with its new flag.
pub open spec fn updated(s: Seq<TaskView>, id: Seq<char>, complete: bool) -> Option<TaskView> {
    match position_of(s, id) {
        Some(i) => Some(with_complete(s[i], complete)),
        None => None,
    }
}

/// The store after setting the flag of `id`: the first task that carries `id`
/// has the new flag, in place; a store without such a task is unchanged.
pub open spec fn after_set_complete(s: Seq<TaskView>, id: Seq<char>, complete: bool) -> Seq<
    TaskView,
> {
    match position_of(s, id) {
        Some(i) => s.update(i, with_complete(s[i], complete)),
        None => s,
    }
}

/// At most one position is the first with a given identifier.
pub proof fn lemma_first_with_id_unique(s: Seq<TaskView>, id: Seq<char>, i: int, j: int)
    requires
        is_first_with_id(s, id, i),
        is_first_with_id(s, id, j),
    ensures
        i == j,
{
}

/// `position_of` is `Some(i)` exactly for the first position `i` with `id`.
pub proof fn lemma_position_of_first(s: Seq<TaskView>, id: Seq<char>, i: int)
    requires
        is_first_with_id(s, id, i),
    ensures
        position_of(s, id) == Some(i),
{
    let k = choose|k: int| is_first_with_id(s, id, k);
    lemma_first_with_id_unique(s, id, i, k);
}

/// `position_of` is `None` exactly when no task carries `id`, and otherwise
/// names the first position that does.
pub proof fn lemma_position_of_iff_has_id(s: Seq<TaskView>, id: Seq<char>)
    ensures
        position_of(s, id) is None <==> !has_id(s, id),
        position_of(s, id) matches Some(i) ==> is_first_with_id(s, id, i),
{
    if has_id(s, id) {
        let w = choose|i: int| 0 <= i < s.len() && (#[trigger] s[i]).id == id;
        lemma_first_exists(s, id, w);
    }
}

/// If position `w` carries `id`, some position at or before `w` is the first
/// that does.
proof fn lemma_first_exists(s: Seq<TaskView>, id: Seq<char>, w: int)
    requires
        0 <= w < s.len(),
        s[w].id == id,
    ensures
        exists|i: int| is_first_with_id(s, id, i),
    decreases w,
{
    if forall|j: int| 0 <= j < w ==> (#[trigger] s[j]).id != id {
        assert(is_first_with_id(s, id, w));
    } else {
        let j = choose|j: int| 0 <= j < w && (#[trigger] s[j]).id == id;
        lemma_first_exists(s, id, j);
    }
}

} // verus!
