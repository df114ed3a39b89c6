//! Files of the Gemini API.

use vstd::prelude::*;

verus! {

/// What the API reports of an uploaded file.
#[derive(Debug, Clone)]
pub struct FileResponse {
    /// The file name (its ID).
    pub name: String,
    /// The file URI.
    pub uri: String,
    /// MIME type of the file.
    pub mime_type: Option<String>,
    /// Size of the file in bytes.
    pub size_bytes: Option<i64>,
}

} // verus!
