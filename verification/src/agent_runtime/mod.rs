//! The agent runtime's decisions: session configuration, pipeline steps,
//! and which steps a trigger runs.
pub mod config;
pub mod executor;
pub mod lifecycle;
pub mod loader;
pub mod pipeline;
pub mod schema_registry;
pub mod shadowing;
pub mod tool_detector;
pub mod tool_executor;
pub mod work_queue;
