//! Website crawling: configuration, page records, and where pages are
//! stored.

pub mod config;
pub mod content_extraction;
pub mod error;
pub mod spider_integration;
pub mod storage;

pub use config::{CrawlerConfig, CrawlerConfigBuilder};
pub use error::CrawlError;

use vstd::prelude::*;

verus! {

/// A crawled page with its content and metadata.
#[derive(Debug, Clone)]
pub struct CrawledPage {
    /// URL of the page.
    pub url: String,
    /// Content of the page in Markdown.
    pub content: String,
    /// Metadata extracted from the page.
    pub metadata: PageMetadata,
}

/// Metadata of a crawled page.
#[derive(Debug, Clone)]
pub struct PageMetadata {
    /// Title of the page.
    pub title: Option<String>,
    /// Description of the page.
    pub description: Option<String>,
    /// Publication date, in seconds since the Unix epoch (UTC).
    pub publication_date: Option<i64>,
    /// Author of the page.
    pub author: Option<String>,
    /// Domain of the page.
    pub domain: String,
}

} // verus!
