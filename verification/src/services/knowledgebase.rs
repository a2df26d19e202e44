//! Settings of the knowledge base service.
use crate::services::{count_or, count_value_or, or_default, value_or};
use vstd::prelude::*;

verus! {

/// How texts are embedded for the knowledge base.
#[derive(Debug, Clone)]
pub struct EmbedConfig {
    pub url: String,
    pub model: String,
    /// Dimension of the embedding vectors.
    pub dim: usize,
}

impl EmbedConfig {
    /// From `CAFE_KNOWLEDGEBASE_EMBED_URL`, `CAFE_KNOWLEDGEBASE_EMBED_MODEL`
    /// and `CAFE_KNOWLEDGEBASE_EMBED_DIM`, with their defaults.
    pub fn from_vars(url: Option<String>, model: Option<String>, dim: Option<String>) -> (r: Self)
        ensures
            r.url@ == or_default(url, "http://localhost:11434/api/embed"@),
            r.model@ == or_default(model, "nomic-embed-text"@),
            r.dim == count_or(dim, 768),
    {
        EmbedConfig {
            url: value_or(url, "http://localhost:11434/api/embed"),
            model: value_or(model, "nomic-embed-text"),
            dim: count_value_or(dim, 768),
        }
    }
}

/// A knowledge base: where its index is stored and the dimension of its
/// embeddings.
#[derive(Debug, Clone)]
pub struct KnowledgeBase {
    pub uri: String,
    pub dim: usize,
}

impl KnowledgeBase {
    pub fn new(uri: String, dim: usize) -> (r: Self)
        ensures
            r.uri == uri,
            r.dim == dim,
    {
        KnowledgeBase { uri, dim }
    }
}

} // verus!
