//! Configuration of the content processor.

use vstd::prelude::*;

verus! {

/// How text is cut into chunks.
#[derive(Debug, Clone, Copy, PartialEq, Eq)]
pub struct ChunkOptions {
    /// Number of words after which a chunk is cut.
    pub target_chunk_size: usize,
    /// Number of words repeated at the start of the next chunk.
    pub overlap_size: usize,
}

impl Default for ChunkOptions {
    fn default() -> (o: Self)
        ensures
            o.target_chunk_size == 1000,
            o.overlap_size == 100,
    {
        ChunkOptions { target_chunk_size: 1000, overlap_size: 100 }
    }
}

/// Configuration of the processor.
#[derive(Debug, Clone)]
pub struct ProcessorConfig {
    /// Options for chunking.
    pub chunk_options: ChunkOptions,
    /// Model used for summaries and context strings.
    pub llm_model: String,
    /// Dimensions of the embedding vectors.
    pub embedding_dimensions: usize,
}

/// The model name a processor uses unless told otherwise.
pub open spec fn default_llm_model() -> Seq<char> {
    "gemini-1.5-flash"@
}

impl Default for ProcessorConfig {
    fn default() -> (c: Self)
        ensures
            c.chunk_options.target_chunk_size == 1000,
            c.chunk_options.overlap_size == 100,
            c.llm_model@ == default_llm_model(),
            c.embedding_dimensions == 384,
    {
        let model = "gemini-1.5-flash";
        ProcessorConfig {
            chunk_options: ChunkOptions::default(),
            llm_model: String::from_str(model),
            embedding_dimensions: 384,
        }
    }
}

impl ProcessorConfig {
    /// A builder that starts from the default configuration.
    pub fn builder() -> (b: ProcessorConfigBuilder)
        ensures
            b.config.chunk_options.target_chunk_size == 1000,
            b.config.chunk_options.overlap_size == 100,
            b.config.llm_model@ == default_llm_model(),
            b.config.embedding_dimensions == 384,
    {
        ProcessorConfigBuilder::new()
    }
}

/// Builder for `ProcessorConfig`.
#[derive(Debug)]
pub struct ProcessorConfigBuilder {
    pub config: ProcessorConfig,
}

impl ProcessorConfigBuilder {
    /// A builder that starts from the default configuration.
    pub fn new() -> (b: Self)
        ensures
            b.config.chunk_options.target_chunk_size == 1000,
            b.config.chunk_options.overlap_size == 100,
            b.config.llm_model@ == default_llm_model(),
            b.config.embedding_dimensions == 384,
    {
        ProcessorConfigBuilder { config: ProcessorConfig::default() }
    }

    /// Sets the chunk options.
    pub fn chunk_options(self, chunk_options: ChunkOptions) -> (b: Self)
        ensures
            b.config.chunk_options == chunk_options,
            b.config.llm_model == self.config.llm_model,
            b.config.embedding_dimensions == self.config.embedding_dimensions,
    {
        let mut b = self;
        b.config.chunk_options = chunk_options;
        b
    }

    /// Sets the target chunk size.
    pub fn target_chunk_size(self, target_chunk_size: usize) -> (b: Self)
        ensures
            b.config.chunk_options.target_chunk_size == target_chunk_size,
            b.config.chunk_options.overlap_size == self.config.chunk_options.overlap_size,
            b.config.llm_model == self.config.llm_model,
            b.config.embedding_dimensions == self.config.embedding_dimensions,
    {
        let mut b = self;
        b.config.chunk_options.target_chunk_size = target_chunk_size;
        b
    }

    /// Sets the overlap size.
    pub fn overlap_size(self, overlap_size: usize) -> (b: Self)
        ensures
            b.config.chunk_options.overlap_size == overlap_size,
            b.config.chunk_options.target_chunk_size == self.config.chunk_options.target_chunk_size,
            b.config.llm_model == self.config.llm_model,
            b.config.embedding_dimensions == self.config.embedding_dimensions,
    {
        let mut b = self;
        b.config.chunk_options.overlap_size = overlap_size;
        b
    }

    /// Sets the model name.
    pub fn llm_model(self, llm_model: &str) -> (b: Self)
        ensures
            b.config.llm_model@ == llm_model@,
            b.config.chunk_options == self.config.chunk_options,
            b.config.embedding_dimensions == self.config.embedding_dimensions,
    {
        let mut b = self;
        b.config.llm_model = String::from_str(llm_model);
        b
    }

    /// Sets the embedding dimensions.
    pub fn embedding_dimensions(self, embedding_dimensions: usize) -> (b: Self)
        ensures
            b.config.embedding_dimensions == embedding_dimensions,
            b.config.chunk_options == self.config.chunk_options,
            b.config.llm_model == self.config.llm_model,
    {
        let mut b = self;
        b.config.embedding_dimensions = embedding_dimensions;
        b
    }

    /// The configuration built so far.
    pub fn build(self) -> (c: ProcessorConfig)
        ensures
            c == self.config,
    {
        self.config
    }
}

} // verus!
