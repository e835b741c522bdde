//! A personal task tracker: the task model, its text forms, and the
//! operations on a task collection that the command layer applies.
pub mod error;
pub mod store;
pub mod task;
