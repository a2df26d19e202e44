//! Verified core logic of the café agent platform.
pub mod agent_js;
pub mod agent_runtime;
pub mod binary_store;
pub mod bus;
pub mod chunk;
pub mod cli;
pub mod codec;
pub mod demo;
pub mod dice;
pub mod narration;
pub mod http_proxy;
pub mod js_manifest;
pub mod json_text;
pub mod lines;
pub mod services;
pub mod llm;
pub mod text;
