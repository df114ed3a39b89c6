//! The library's error type.

use vstd::prelude::*;

verus! {

/// Errors of the model API client and the tools around it. Errors that come
/// from outside libraries carry their message.
#[derive(Debug, Clone, PartialEq, Eq)]
pub enum Error {
    /// HTTP client error.
    Http(String),
    /// JSON serialization or deserialization error.
    Json(String),
    /// The API answered with an error status.
    Api { status_code: u16, message: String },
    /// Authentication error.
    Auth(String),
    /// Rate limit exceeded.
    RateLimit { retry_after_secs: u64 },
    /// Invalid request parameters.
    InvalidRequest(String),
    /// Unexpected response format.
    UnexpectedResponse(String),
    /// Operation not supported.
    Unsupported(String),
    /// Markdown formatting error.
    Markdown(String),
    /// Web crawling error.
    Crawl(String),
    /// Content processing error.
    Process(String),
    /// Database error.
    Database(String),
    /// Search error.
    Search(String),
    /// Other errors.
    Other(String),
}

/// `r` is an `Error::Auth` with message `msg`.
pub open spec fn is_auth_error<T>(r: Result<T, Error>, msg: Seq<char>) -> bool {
    match r {
        Err(Error::Auth(m)) => m@ == msg,
        _ => false,
    }
}

/// `e` is an `Error::Other` whose message starts with `prefix`.
pub open spec fn is_other_error(e: Error, prefix: Seq<char>) -> bool {
    match e {
        Error::Other(m) => m@.len() >= prefix.len() && m@.take(prefix.len() as int) == prefix,
        _ => false,
    }
}

} // verus!
