//! The LLM evaluator's pure parts: conversation messages, the context built
//! from session history, compaction of that context, and its configuration.
pub mod config;
pub mod context;
pub mod evaluator;
pub mod messages;
