//! The construction-time state machine.

pub mod build_stack;
pub mod nesting;
pub mod parameters;
pub mod scopes;

pub use build_stack::{
    BuildStack, BuildStackView, ContextFrame, DirectoryProbe, DirectoryRequest, FrameView,
};
