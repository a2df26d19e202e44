//! The session bus: per-session state, the registry of sessions,
//! subscription filters and the decisions taken on client requests.
pub mod filter;
pub mod protocol;
pub mod registry;
pub mod session;
