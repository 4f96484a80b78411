//! Reconciliation engine for a full-screen dismiss overlay that follows the
//! compositor's tracked layer surfaces.
//!
//! The engine is a state machine: messages and compositor snapshots go in,
//! the new overlay visibility and the dismiss commands to run come out. The
//! compositor query, the event subscription and running shell commands are
//! left to the caller.
pub mod config;
pub mod engine;
pub mod laws;
pub mod snapshot;

pub use config::LayerConfig;
pub use engine::{Action, CompositorUnavailable, Engine, EngineMessage};
pub use snapshot::{LayerInfo, Snapshot};
