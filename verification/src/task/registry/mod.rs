//! The registry and the resolver that reads it.

pub mod resolver;
pub mod task_registry;

pub use resolver::{GroupLookup, LookupView, TaskLookup};
pub use task_registry::{RegistryView, TaskRegistry};
