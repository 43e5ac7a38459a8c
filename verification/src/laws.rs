//! What holds of the store's operations taken together.
//!
//! Every statement here is about the model in [`crate::model`], the same
//! functions that the contracts of [`crate::TaskManager`]'s operations are
//! written over, so each one holds of every store that those operations can
//! produce.
//!
//! The store never inspects the identifiers it is handed at creation. The
//! statements that rest on identifiers being unique therefore say so in their
//! premises.

use vstd::prelude::*;
use crate::model::{
    after_create, after_delete, after_set_complete, deleted, has_id, ids_distinct,
    is_first_with_id, lemma_position_of_first, lemma_position_of_iff_has_id, new_task,
    position_of, updated,
};
use crate::task::TaskView;

verus! {

/// The store after a run of creations, one for each identifier in `ids` with
/// the title at the same position of `titles`, in order.
pub open spec fn after_creates(
    s: Seq<TaskView>,
    ids: Seq<Seq<char>>,
    titles: Seq<Seq<char>>,
) -> Seq<TaskView>
    recommends
        ids.len() == titles.len(),
    decreases ids.len(),
{
    if ids.len() == 0 {
        s
    } else {
        after_create(
            after_creates(s, ids.drop_last(), titles.drop_last()),
            ids.last(),
            titles.last(),
        )
    }
}

/// Creation keeps identifiers unique exactly when the new identifier is not
/// yet in the store: the store after a creation has pairwise distinct
/// identifiers if and only if it had them before and held no task with the
/// new one.
pub proof fn law_create_keeps_ids_distinct(s: Seq<TaskView>, id: Seq<char>, title: Seq<char>)
    ensures
        ids_distinct(after_create(s, id, title)) <==> ids_distinct(s) && !has_id(s, id),
{
    let s2 = after_create(s, id, title);
    if ids_distinct(s2) {
        assert forall|i: int, j: int| 0 <= i < j < s.len() implies (#[trigger] s[i]).id
            != (#[trigger] s[j]).id by {
            assert(s2[i] == s[i] && s2[j] == s[j]);
        }
        if has_id(s, id) {
            let w = choose|i: int| 0 <= i < s.len() && (#[trigger] s[i]).id == id;
            assert(s2[w].id == s2[s.len() as int].id);
        }
    }
    if ids_distinct(s) && !has_id(s, id) {
        assert(ids_distinct(s2));
    }
}

/// A run of creations appends one task per call, in call order, and loses
/// none: the store grows by the number of calls, what was there stays in
/// front unchanged, and the task of the `k`-th call stands `k` places behind
/// it, not complete, with the identifier and title of that call.
pub proof fn law_creates_append_in_order(
    s: Seq<TaskView>,
    ids: Seq<Seq<char>>,
    titles: Seq<Seq<char>>,
)
    requires
        ids.len() == titles.len(),
    ensures
        after_creates(s, ids, titles).len() == s.len() + ids.len(),
        after_creates(s, ids, titles).subrange(0, s.len() as int) == s,
        forall|k: int|
            0 <= k < ids.len() ==> #[trigger] after_creates(s, ids, titles)[s.len() + k]
                == new_task(ids[k], titles[k]),
    decreases ids.len(),
{
    if ids.len() > 0 {
        law_creates_append_in_order(s, ids.drop_last(), titles.drop_last());
    }
}

/// Identifiers stay unique over any run of creations in which no identifier
/// is handed out twice: if the identifiers of the run are pairwise distinct
/// and none of them is in the store at the start, and the store's own
/// identifiers are pairwise distinct, then so are those of the store at the
/// end.
pub proof fn law_creates_keep_ids_distinct(
    s: Seq<TaskView>,
    ids: Seq<Seq<char>>,
    titles: Seq<Seq<char>>,
)
    requires
        ids.len() == titles.len(),
        ids_distinct(s),
        ids.no_duplicates(),
        forall|k: int| 0 <= k < ids.len() ==> !has_id(s, #[trigger] ids[k]),
    ensures
        ids_distinct(after_creates(s, ids, titles)),
{
    let r = after_creates(s, ids, titles);
    law_creates_append_in_order(s, ids, titles);
    assert forall|i: int, j: int| 0 <= i < j < r.len() implies (#[trigger] r[i]).id
        != (#[trigger] r[j]).id by {
        let n = s.len() as int;
        if i < n {
            assert(r[i] == r.subrange(0, n)[i]);
        } else {
            assert(r[n + (i - n)].id == ids[i - n]);
        }
        if j < n {
            assert(r[j] == r.subrange(0, n)[j]);
        } else {
            assert(r[n + (j - n)].id == ids[j - n]);
        }
    }
}

/// Listing right after a creation shows the new task last, behind the tasks
/// that were there, which are unchanged. If the new identifier was not in the
/// store before, the listing holds exactly one task with it.
pub proof fn law_create_then_list(s: Seq<TaskView>, id: Seq<char>, title: Seq<char>)
    ensures
        after_create(s, id, title).len() == s.len() + 1,
        after_create(s, id, title).last() == new_task(id, title),
        after_create(s, id, title).drop_last() == s,
        has_id(after_create(s, id, title), id),
        !has_id(s, id) ==> forall|i: int|
            0 <= i < s.len() + 1 ==> ((#[trigger] after_create(s, id, title)[i]).id == id <==> i
                == s.len()),
{
    let s2 = after_create(s, id, title);
    assert(s2.drop_last() =~= s);
    assert(s2[s.len() as int].id == id);
}

/// Deleting an identifier that no task carries finds nothing and changes
/// nothing, however often it is tried.
pub proof fn law_delete_absent(s: Seq<TaskView>, id: Seq<char>)
    requires
        !has_id(s, id),
    ensures
        deleted(s, id) is None,
        after_delete(s, id) == s,
{
    lemma_position_of_iff_has_id(s, id);
}

/// A deletion finds a task exactly when some task carries the identifier; it
/// then hands back the first such task and removes that one alone: the store
/// shrinks by one and every other task keeps its content and its order.
pub proof fn law_delete_removes_first(s: Seq<TaskView>, id: Seq<char>)
    ensures
        deleted(s, id) is Some <==> has_id(s, id),
        has_id(s, id) ==> {
            let i = position_of(s, id).unwrap();
            &&& is_first_with_id(s, id, i)
            &&& deleted(s, id) == Some(s[i])
            &&& after_delete(s, id).len() == s.len() - 1
            &&& forall|j: int| 0 <= j < i ==> #[trigger] after_delete(s, id)[j] == s[j]
            &&& forall|j: int| i <= j < s.len() - 1 ==> #[trigger] after_delete(s, id)[j] == s[j + 1]
        },
{
    lemma_position_of_iff_has_id(s, id);
}

/// In a store with pairwise distinct identifiers, a deleted identifier is
/// gone: a second deletion of it finds nothing and removes nothing.
pub proof fn law_delete_twice(s: Seq<TaskView>, id: Seq<char>)
    requires
        ids_distinct(s),
    ensures
        !has_id(after_delete(s, id), id),
        deleted(after_delete(s, id), id) is None,
        after_delete(after_delete(s, id), id) == after_delete(s, id),
{
    let s1 = after_delete(s, id);
    law_delete_removes_first(s, id);
    if has_id(s, id) && has_id(s1, id) {
        let i = position_of(s, id).unwrap();
        let w = choose|w: int| 0 <= w < s1.len() && (#[trigger] s1[w]).id == id;
        if w < i {
            assert(s[w].id == id);
        } else {
            assert(s[i].id == s[w + 1].id);
        }
    }
    law_delete_absent(s1, id);
}

/// Deletion keeps identifiers unique.
pub proof fn law_delete_keeps_ids_distinct(s: Seq<TaskView>, id: Seq<char>)
    requires
        ids_distinct(s),
    ensures
        ids_distinct(after_delete(s, id)),
{
    let s1 = after_delete(s, id);
    law_delete_removes_first(s, id);
    if has_id(s, id) {
        let p = position_of(s, id).unwrap();
        assert forall|i: int, j: int| 0 <= i < j < s1.len() implies (#[trigger] s1[i]).id
            != (#[trigger] s1[j]).id by {
            let i0 = if i < p { i } else { i + 1 };
            let j0 = if j < p { j } else { j + 1 };
            assert(s1[i] == s[i0] && s1[j] == s[j0]);
        }
    }
}

/// Setting the completion flag touches one field of one task: the store keeps
/// its length, every task keeps its identifier and title, every task but the
/// first that carries the identifier keeps its flag too, and that first one
/// has the new flag. The operation finds a task exactly when some task carries
/// the identifier, and hands back that task as it then is.
pub proof fn law_set_complete_isolated(s: Seq<TaskView>, id: Seq<char>, complete: bool)
    ensures
        updated(s, id, complete) is Some <==> has_id(s, id),
        !has_id(s, id) ==> after_set_complete(s, id, complete) == s,
        after_set_complete(s, id, complete).len() == s.len(),
        forall|j: int|
            0 <= j < s.len() ==> {
                let t = #[trigger] after_set_complete(s, id, complete)[j];
                &&& t.id == s[j].id
                &&& t.title == s[j].title
                &&& t.complete == if position_of(s, id) == Some(j) {
                    complete
                } else {
                    s[j].complete
                }
            },
        has_id(s, id) ==> {
            let i = position_of(s, id).unwrap();
            &&& is_first_with_id(s, id, i)
            &&& updated(s, id, complete) == Some(after_set_complete(s, id, complete)[i])
        },
{
    lemma_position_of_iff_has_id(s, id);
}

/// After a single toggle on a store in which nothing was complete, exactly
/// one task is complete: the first that carries the identifier.
pub proof fn law_single_toggle(s: Seq<TaskView>, id: Seq<char>)
    requires
        has_id(s, id),
        forall|j: int| 0 <= j < s.len() ==> !(#[trigger] s[j]).complete,
    ensures
        forall|j: int|
            0 <= j < s.len() ==> ((#[trigger] after_set_complete(s, id, true)[j]).complete
                <==> position_of(s, id) == Some(j)),
{
    law_set_complete_isolated(s, id, true);
}

/// Setting the completion flag keeps identifiers unique, and leaves each
/// identifier where it was.
pub proof fn law_set_complete_keeps_ids(s: Seq<TaskView>, id: Seq<char>, complete: bool)
    ensures
        forall|k: Seq<char>| #[trigger]
            position_of(after_set_complete(s, id, complete), k) == position_of(s, k),
        ids_distinct(s) <==> ids_distinct(after_set_complete(s, id, complete)),
{
    let s2 = after_set_complete(s, id, complete);
    law_set_complete_isolated(s, id, complete);
    assert forall|k: Seq<char>| #[trigger] position_of(s2, k) == position_of(s, k) by {
        lemma_position_of_iff_has_id(s, k);
        lemma_position_of_iff_has_id(s2, k);
        match position_of(s, k) {
            Some(i) => {
                assert(is_first_with_id(s2, k, i));
                lemma_position_of_first(s2, k, i);
            },
            None => {
                if has_id(s2, k) {
                    let w = choose|w: int| 0 <= w < s2.len() && (#[trigger] s2[w]).id == k;
                    assert(s[w].id == k);
                }
            },
        }
    }
    if ids_distinct(s) {
        assert(ids_distinct(s2));
    }
    if ids_distinct(s2) {
        assert forall|i: int, j: int| 0 <= i < j < s.len() implies (#[trigger] s[i]).id
            != (#[trigger] s[j]).id by {
            assert(s2[i].id == s[i].id && s2[j].id == s[j].id);
        }
    }
}

} // verus!
