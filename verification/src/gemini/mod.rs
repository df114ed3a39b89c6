//! The Gemini API: request and response types, request paths, and the
//! policies of the HTTP client (client-side rate limiting, retries, and
//! the reading of error statuses).

pub mod client;
pub mod files;
pub mod http;
pub mod models;
pub mod types;
