//! Builders for the scopes that are open while a script is evaluated.

pub mod group_builder;
pub mod task_builder;

pub use group_builder::{GroupBuilder, GroupBuilderView};
pub use task_builder::{TaskBuilder, TaskBuilderView};
