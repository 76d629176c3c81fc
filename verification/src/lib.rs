//! A small task-tracking library: tasks keyed by title, a typed predicate
//! mini-language for filtering, and the store operations behind a todo CLI.

pub mod datetime;
pub mod predicate;
pub mod store;
pub mod task;
pub mod text;
