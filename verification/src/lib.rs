//! An in-memory store of to-do tasks.
//!
//! [`TaskManager`] owns an ordered collection of [`Task`]s and offers four
//! operations on it: list, create, delete by id, and set the completion flag
//! by id. The contract of each operation is written over a mathematical model
//! of the store, a sequence of [`TaskView`]s kept in insertion order.
//!
//! The store itself is a plain value: a caller that shares it between several
//! execution contexts wraps it in a lock and calls each operation while holding
//! exclusive access, so that the operations take effect one after another.

pub mod ident;
pub mod laws;
pub mod model;
pub mod store;
pub mod task;

pub use store::TaskManager;
pub use task::{Task, TaskView};
