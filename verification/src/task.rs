//! The task entity and its mathematical view.

use vstd::prelude::*;

verus! {

/// What a [`Task`] is, mathematically: its three fields as plain values.
pub struct TaskView {
    pub id: Seq<char>,
    pub title: Seq<char>,
    pub complete: bool,
}

/// A single to-do item.
///
/// The `id` is assigned by the store when the task is created and never
/// changes afterwards; neither does the `title`. Only `complete` is mutable,
/// and only through the store.
#[derive(Debug)]
pub struct Task {
    pub id: String,
    pub title: String,
    pub complete: bool,
}

impl View for Task {
    type V = TaskView;

    open spec fn view(&self) -> TaskView {
        TaskView { id: self.id@, title: self.title@, complete: self.complete }
    }
}

impl DeepView for Task {
    type V = TaskView;

    open spec fn deep_view(&self) -> TaskView {
        self@
    }
}

impl Clone for Task {
    /// A copy with the same id, title and completion flag.
    fn clone(&self) -> (res: Task)
        ensures
            res == *self,
    {
        Task { id: self.id.clone(), title: self.title.clone(), complete: self.complete }
    }
}

} // verus!
