//! A task list held in memory: tasks with distinct, increasing ids that can be
//! added, toggled and purged, and the checks that decide which stored list a
//! store may start from.

pub mod bridge;
pub mod laws;
pub mod store;
pub mod task;
pub mod text;
