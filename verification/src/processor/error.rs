//! Errors of the content processor.

use vstd::prelude::*;

verus! {

/// Errors of the content processor. Errors that come from outside
/// libraries carry their message.
#[derive(Debug, Clone, PartialEq, Eq)]
pub enum ProcessError {
    /// HTTP client error.
    Http(String),
    /// Markdown parsing error.
    MarkdownParse(String),
    /// Embedding generation error.
    EmbeddingGeneration(String),
    /// LLM error.
    Llm(String),
    /// Embedding model error.
    Embedding(String),
    /// Embedding processing error.
    EmbeddingProcessing(String),
    /// Chunking error.
    Chunking(String),
    /// Semaphore acquisition error.
    Semaphore(String),
    /// Task join error.
    TaskJoin(String),
    /// Task execution error.
    Task(String),
    /// Other errors.
    Other(String),
}

} // verus!
