//! Embedding generator profiles.
use vstd::prelude::*;

verus! {

/// One declared embedding generator. Vectors stored on memory rows must be
/// compared only against vectors produced by the same profile; mixing models
/// silently corrupts semantic search.
///
/// `provider` is a free string (e.g. "openai", "local-onnx", "cohere") so
/// adding a new backend does not require an enum bump.
#[derive(Debug, Clone, PartialEq)]
pub struct EmbeddingProfile {
    /// Stable id, typically `<provider>:<model>`.
    pub id: String,
    pub provider: String,
    pub model: String,
    pub dimensions: u32,
    pub created_at: u64,
}

} // verus!
