//! Settings of the LLM evaluator process.
use crate::services::{or_default, value_or, DEFAULT_BUS_SOCKET};
use vstd::prelude::*;

verus! {

/// Where the evaluator connects and which backend it talks to.
pub struct Config {
    pub socket_path: String,
    pub backend: String,
    pub ollama_url: String,
    pub ollama_model: String,
    pub openai_url: String,
    pub openai_api_key: String,
    pub openai_model: String,
}

impl Config {
    /// From `CAFE_BUS_SOCKET`, `LLM_BACKEND`, `OLLAMA_URL`, `OLLAMA_MODEL`,
    /// `OPENAI_URL`, `OPENAI_API_KEY` and `OPENAI_MODEL`, with their
    /// defaults (Ollama on localhost; empty OpenAI key and model).
    pub fn from_vars(
        socket: Option<String>,
        backend: Option<String>,
        ollama_url: Option<String>,
        ollama_model: Option<String>,
        openai_url: Option<String>,
        openai_api_key: Option<String>,
        openai_model: Option<String>,
    ) -> (r: Self)
        ensures
            r.socket_path@ == or_default(socket, DEFAULT_BUS_SOCKET@),
            r.backend@ == or_default(backend, "ollama"@),
            r.ollama_url@ == or_default(ollama_url, "http://localhost:11434"@),
            r.ollama_model@ == or_default(ollama_model, "gemma3:1b"@),
            r.openai_url@ == or_default(openai_url, "http://localhost:8000"@),
            r.openai_api_key@ == or_default(openai_api_key, Seq::empty()),
            r.openai_model@ == or_default(openai_model, Seq::empty()),
    {
        proof {
            reveal_strlit("");
        }
        Config {
            socket_path: value_or(socket, DEFAULT_BUS_SOCKET),
            backend: value_or(backend, "ollama"),
            ollama_url: value_or(ollama_url, "http://localhost:11434"),
            ollama_model: value_or(ollama_model, "gemma3:1b"),
            openai_url: value_or(openai_url, "http://localhost:8000"),
            openai_api_key: value_or(openai_api_key, ""),
            openai_model: value_or(openai_model, ""),
        }
    }
}

} // verus!
