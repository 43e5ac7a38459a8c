//! The task store.
//!
//! [`TaskManager`] is a plain value with exclusive access written into its
//! signatures: the operations that change the store take `&mut self`, so no
//! two of them overlap and none is seen half done. A process that serves many
//! callers keeps one store behind one lock and calls each operation with the
//! lock held.

use vstd::prelude::*;
use crate::ident::{fresh_id, is_uuid_v4_text};
use crate::laws::{
    law_create_keeps_ids_distinct, law_delete_keeps_ids_distinct, law_set_complete_keeps_ids,
};
use crate::model::{
    after_create, after_delete, after_set_complete, deleted, has_id, ids_distinct,
    lemma_position_of_first, lemma_position_of_iff_has_id, new_task, position_of, updated,
    with_complete,
};
use crate::task::{Task, TaskView};

verus! {

/// The store: every task that was created and not deleted since, in the order
/// of creation.
///
/// Its view is the sequence of the tasks' views in that order.
pub struct TaskManager {
    tasks: Vec<Task>,
}

impl View for TaskManager {
    type V = Seq<TaskView>;

    closed spec fn view(&self) -> Seq<TaskView> {
        self.tasks.deep_view()
    }
}

impl TaskManager {
    /// An empty store.
    pub fn new() -> (res: TaskManager)
        ensures
            res@ == Seq::<TaskView>::empty(),
    {
        TaskManager { tasks: Vec::new() }
    }

    /// The position of the first task that carries `id`.
    fn find(&self, id: &String) -> (res: Option<usize>)
        ensures
            match res {
                Some(i) => position_of(self@, id@) == Some(i as int),
                None => position_of(self@, id@) is None,
            },
    {
        let mut i: usize = 0;
        while i < self.tasks.len()
            invariant
                i <= self.tasks.len(),
                forall|j: int| 0 <= j < i ==> (#[trigger] self@[j]).id != id@,
            decreases self.tasks.len() - i,
        {
            if self.tasks[i].id == *id {
                proof {
                    lemma_position_of_first(self@, id@, i as int);
                }
                return Some(i);
            }
            i += 1;
        }
        proof {
            lemma_position_of_iff_has_id(self@, id@);
        }
        None
    }

    /// A snapshot of the store: a copy of every task, oldest first.
    ///
    /// The store is left as it is, and later changes to it do not show in the
    /// snapshot.
    pub fn get_tasks(&self) -> (res: Vec<Task>)
        ensures
            res.deep_view() == self@,
    {
        self.tasks.clone()
    }

    /// Creates a task with the given title and a freshly drawn identifier,
    /// appends it to the store and returns a copy of it.
    ///
    /// Any title is accepted, the empty one too. Which identifier is drawn is
    /// not determined; [`TaskManager::create_task_with_id`] says what the
    /// store does with it.
    pub fn create_task(&mut self, title: String) -> (task: Task)
        ensures
            is_uuid_v4_text(task@.id),
            task@ == new_task(task@.id, title@),
            final(self)@ == after_create(old(self)@, task@.id, title@),
            ids_distinct(final(self)@) <==> ids_distinct(old(self)@) && !has_id(
                old(self)@,
                task@.id,
            ),
    {
        let id = fresh_id();
        self.create_task_with_id(id, title)
    }

    /// Creates a task with the given identifier and title, appends it to the
    /// store and returns a copy of it.
    ///
    /// The identifier is taken as it is: the store does not look for a task
    /// that already carries it.
    pub fn create_task_with_id(&mut self, id: String, title: String) -> (task: Task)
        ensures
            task@ == new_task(id@, title@),
            final(self)@ == after_create(old(self)@, id@, title@),
            ids_distinct(final(self)@) <==> ids_distinct(old(self)@) && !has_id(old(self)@, id@),
    {
        let task = Task { id, title, complete: false };
        self.tasks.push(task.clone());
        proof {
            law_create_keeps_ids_distinct(old(self)@, id@, title@);
        }
        task
    }

    /// Removes the first task that carries `id` and returns it; returns `None`
    /// and leaves the store unchanged when no task carries `id`.
    pub fn delete_task(&mut self, id: String) -> (res: Option<Task>)
        ensures
            res is Some <==> has_id(old(self)@, id@),
            res.deep_view() == deleted(old(self)@, id@),
            final(self)@ == after_delete(old(self)@, id@),
            ids_distinct(old(self)@) ==> ids_distinct(final(self)@),
    {
        proof {
            lemma_position_of_iff_has_id(self@, id@);
            if ids_distinct(self@) {
                law_delete_keeps_ids_distinct(self@, id@);
            }
        }
        match self.find(&id) {
            Some(pos) => {
                let task = self.tasks.remove(pos);
                assert(self@ =~= old(self)@.remove(pos as int));
                Some(task)
            },
            None => None,
        }
    }

    /// Sets the completion flag of the first task that carries `id` and
    /// returns a copy of the task as it then is; returns `None` and leaves the
    /// store unchanged when no task carries `id`.
    pub fn set_task_complete(&mut self, id: String, complete: bool) -> (res: Option<Task>)
        ensures
            res is Some <==> has_id(old(self)@, id@),
            res.deep_view() == updated(old(self)@, id@, complete),
            final(self)@ == after_set_complete(old(self)@, id@, complete),
            ids_distinct(final(self)@) <==> ids_distinct(old(self)@),
    {
        proof {
            lemma_position_of_iff_has_id(self@, id@);
            law_set_complete_keeps_ids(self@, id@, complete);
        }
        match self.find(&id) {
            Some(pos) => {
                self.tasks[pos].complete = complete;
                assert(self@ =~= old(self)@.update(
                    pos as int,
                    with_complete(old(self)@[pos as int], complete),
                ));
                Some(self.tasks[pos].clone())
            },
            None => None,
        }
    }
}

impl Default for TaskManager {
    /// An empty store.
    fn default() -> (res: TaskManager)
        ensures
            res@ == Seq::<TaskView>::empty(),
    {
        TaskManager::new()
    }
}

} // verus!
