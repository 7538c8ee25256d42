//! Control plane for a population of cooperating agent threads: a registry of
//! running agents, bounded per-agent output buffers, a bounded group-chat log
//! with per-reader cursors, a capability facade for spawning and messaging
//! agents, and the decision logic of the tool layer that drives them.

pub mod chat;
pub mod collab;
pub mod control;
pub mod drain;
pub mod errors;
pub mod ids;
pub mod output;
pub mod personas;
pub mod protocol;
pub mod registry;
pub mod session;
pub mod spawn;
pub mod store;
pub mod text;
