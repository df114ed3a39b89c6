//! Errors of the crawler.

use vstd::prelude::*;

verus! {

/// Errors of the crawler. Errors that come from outside libraries carry
/// their message, or the outside error itself where it is a plain value.
#[derive(Debug)]
pub enum CrawlError {
    /// HTTP client error.
    Http(String),
    /// HTML parsing error.
    HtmlParse(String),
    /// Content extraction error.
    ContentExtraction(String),
    /// Rate limit error.
    RateLimit(String),
    /// robots.txt error.
    RobotsTxt(String),
    /// URL parsing error.
    UrlParse(url::ParseError),
    /// Other errors.
    Other(String),
}

} // verus!
