//! Tasks and groups: the data model, the registry, the build stack, the
//! argument binder and the listing.

pub mod arguments;
pub mod builder;
pub mod display;
pub mod model;
pub mod registry;
pub mod stack;

pub use arguments::{parse_cli_arguments, prepare_arguments_from_cli, prepare_arguments_from_parts};
pub use display::{
    ListItem, ListItemKind, ListMessage, ListMessageLevel, ListOutput, ListRenderMode,
};
pub use registry::{GroupLookup, LookupView, RegistryView, TaskLookup, TaskRegistry};
pub use stack::{BuildStack, BuildStackView};
