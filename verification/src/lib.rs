//! Building blocks of a retrieval-augmented-generation toolkit: Markdown
//! chunking, crawler and processor configuration, page storage paths,
//! session permissions for file and shell tools, request pacing for the
//! model API, and terminal rendering of Markdown.

pub mod coder;
pub mod crawler;
pub mod encoding;
pub mod error;
pub mod gemini;
pub mod index;
pub mod text;
pub mod urls;
pub mod mcp;
pub mod markdown;
pub mod md;
pub mod model;
pub mod paths;
pub mod processor;
pub mod search;

pub use error::Error;
