//! Multi-server routing: a first-wins [`ToolRegistry`] and a [`Router`] that
//! picks the server a tool call goes to.

pub mod registry;
pub mod router;

pub use registry::ToolRegistry;
pub use router::{Router, NO_SERVER_PREFIX};
