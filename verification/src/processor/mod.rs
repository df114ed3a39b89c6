//! Content processing: cutting Markdown into chunks and describing them.

pub mod chunking;
pub mod config;
pub mod error;
pub mod llm_integration;

pub use chunking::{chunk_markdown, TextChunk};
pub use error::ProcessError;
pub use config::{ChunkOptions, ProcessorConfig, ProcessorConfigBuilder};

use vstd::prelude::*;

verus! {

/// Where a processed chunk comes from.
#[derive(Debug, Clone)]
pub struct ChunkMetadata {
    /// The source URL of the chunk.
    pub source_url: String,
    /// The position of the chunk in its document.
    pub position: usize,
    /// The heading the chunk falls under.
    pub heading: Option<String>,
}

} // verus!
