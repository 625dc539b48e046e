//! An in-memory task list: tasks keyed by identifiers that are handed out in
//! increasing order and never reused, with operations to add, remove, update
//! and complete tasks and a listing that puts incomplete tasks first.
pub mod model;
pub mod registry;
pub mod render;
