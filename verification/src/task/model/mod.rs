//! The data model: tasks, groups and the entries that refer to them.

pub mod group;
pub mod task;
pub mod util;

pub use group::{Group, GroupView, RegistryEntry, RegistryEntryView};
pub use task::{ParameterSpec, ParameterSpecView, Task, TaskView};
pub use util::{leaf_name, leaf_of};
