//! Running untrusted guest code under OS isolation, with brokered access to
//! host tools.

pub mod backend;
pub mod broker;
pub mod bubblewrap;
pub mod limits;
pub mod local;
pub mod runner;
pub mod seatbelt;
pub mod wire;

pub use broker::{BrokerAction, BrokerConfig, BrokerReply, BrokerRequest, BrokerSession, ReplyBody};
pub use limits::{truncate_utf8, IsolationLimits};
pub use backend::{HostFacts, LaunchCtx, SandboxBackend};
pub use local::LocalBackend;
pub use bubblewrap::BubblewrapBackend;
pub use seatbelt::SeatbeltBackend;
pub use runner::{IsolatedResult, IsolatedRunner};
