//! Request and response types of the Gemini API.

use crate::encoding::{base64_encode, base64_of};
use std::collections::HashMap;
use vstd::prelude::*;

verus! {

/// A piece of content for the model: text, images or other media.
#[derive(Debug, Clone)]
pub struct Content {
    /// The role of the content (such as `user` or `model`).
    pub role: Option<String>,
    /// The parts of the content.
    pub parts: Vec<Part>,
}

/// A part of content.
#[derive(Debug, Clone)]
pub enum Part {
    /// Text.
    Text(String),
    /// An image.
    Image(Image),
    /// A file reference.
    FileData(FileData),
}

/// An image.
#[derive(Debug, Clone)]
pub struct Image {
    /// MIME type of the image.
    pub mime_type: String,
    /// The image data.
    pub data: ImageData,
}

/// How image data is given.
#[derive(Debug, Clone)]
pub enum ImageData {
    /// Base64-encoded data.
    Base64(String),
    /// A URL of the image.
    Url(String),
}

/// A file reference.
#[derive(Debug, Clone)]
pub struct FileData {
    /// File URI.
    pub file_uri: String,
    /// MIME type of the file.
    pub mime_type: Option<String>,
}

/// `parts` is `before` followed by one part that `last` accepts.
pub open spec fn extended_by(parts: Seq<Part>, before: Seq<Part>, last: spec_fn(Part) -> bool) -> bool {
    parts.len() == before.len() + 1 && parts.take(before.len() as int) == before && last(parts.last())
}

/// `p` is an image part of the given MIME type whose data is the given
/// Base64 text.
pub open spec fn is_base64_image(p: Part, mime_type: Seq<char>, encoded: Seq<char>) -> bool {
    match p {
        Part::Image(img) => {
            &&& img.mime_type@ == mime_type
            &&& (match img.data {
                ImageData::Base64(d) => d@ == encoded,
                ImageData::Url(_) => false,
            })
        },
        _ => false,
    }
}

impl Default for Content {
    fn default() -> (c: Self)
        ensures
            c.role is None,
            c.parts@.len() == 0,
    {
        Content::new()
    }
}

impl Content {
    /// Empty content with no role.
    pub fn new() -> (c: Self)
        ensures
            c.role is None,
            c.parts@.len() == 0,
    {
        Content { role: None, parts: Vec::new() }
    }

    /// Sets the role.
    pub fn with_role(self, role: &str) -> (c: Self)
        ensures
            c.role matches Some(r) && r@ == role@,
            c.parts == self.parts,
    {
        let mut c = self;
        c.role = Some(String::from_str(role));
        c
    }

    /// Adds a text part.
    pub fn with_text(self, text: &str) -> (c: Self)
        ensures
            c.role == self.role,
            extended_by(c.parts@, self.parts@, |p: Part| p matches Part::Text(t) && t@ == text@),
    {
        let mut c = self;
        let ghost before = c.parts@;
        c.parts.push(Part::Text(String::from_str(text)));
        assert(c.parts@.take(before.len() as int) =~= before);
        c
    }

    /// Adds an image part from Base64 data.
    pub fn with_image_base64(self, data: &str, mime_type: &str) -> (c: Self)
        ensures
            c.role == self.role,
            extended_by(c.parts@, self.parts@, |p: Part| is_base64_image(p, mime_type@, data@)),
    {
        let mut c = self;
        let ghost before = c.parts@;
        c.parts.push(
            Part::Image(
                Image {
                    mime_type: String::from_str(mime_type),
                    data: ImageData::Base64(String::from_str(data)),
                },
            ),
        );
        assert(c.parts@.take(before.len() as int) =~= before);
        c
    }
}

impl Part {
    /// An image part holding `data` in standard Base64.
    pub fn from_bytes(data: Vec<u8>, mime_type: &str) -> (p: Self)
        ensures
            is_base64_image(p, mime_type@, base64_of(data@)),
    {
        let encoded = base64_encode(data.as_slice());
        Part::Image(Image { mime_type: String::from_str(mime_type), data: ImageData::Base64(encoded) })
    }
}

/// A safety setting of a request.
#[derive(Debug, Clone)]
pub struct SafetySetting {
    /// The harm category.
    pub category: HarmCategory,
    /// The threshold.
    pub threshold: HarmBlockThreshold,
}

/// Categories of harm.
#[derive(Debug, Clone, Copy, PartialEq, Eq)]
pub enum HarmCategory {
    Harassment,
    HateSpeech,
    SexuallyExplicit,
    Dangerous,
}

/// Thresholds for blocking content.
#[derive(Debug, Clone, Copy, PartialEq, Eq)]
pub enum HarmBlockThreshold {
    BlockOnlyHigh,
    BlockMediumAndHigh,
    BlockLowAndAbove,
    BlockNone,
}

/// The answer to a content generation request.
#[derive(Debug, Clone)]
pub struct GenerateContentResponse {
    /// The generated candidates.
    pub candidates: Vec<Candidate>,
    /// Feedback on the prompt.
    pub prompt_feedback: Option<PromptFeedback>,
}

/// A candidate answer.
#[derive(Debug, Clone)]
pub struct Candidate {
    /// The content of the candidate.
    pub content: Option<Content>,
    /// Why generation stopped.
    pub finish_reason: Option<String>,
    /// Safety ratings.
    pub safety_ratings: Option<Vec<SafetyRating>>,
}

/// A safety rating.
#[derive(Debug, Clone)]
pub struct SafetyRating {
    /// The harm category.
    pub category: HarmCategory,
    /// Probability of harm.
    pub probability: HarmProbability,
}

/// Probability levels of harm.
#[derive(Debug, Clone, Copy, PartialEq, Eq)]
pub enum HarmProbability {
    Negligible,
    Low,
    Medium,
    High,
}

/// Feedback on a prompt.
#[derive(Debug, Clone)]
pub struct PromptFeedback {
    /// Safety ratings of the prompt.
    pub safety_ratings: Vec<SafetyRating>,
    /// Why the prompt was blocked, if it was.
    pub block_reason: Option<String>,
}

/// The text of the first text part among `parts`, or nothing.
pub open spec fn first_text(parts: Seq<Part>) -> Option<Seq<char>>
    decreases parts.len(),
{
    if parts.len() == 0 {
        None
    } else {
        match parts[0] {
            Part::Text(t) => Some(t@),
            _ => first_text(parts.drop_first()),
        }
    }
}

/// The text of a response: the first text part of the first candidate's
/// content, or the empty string when there is none.
pub open spec fn response_text(r: GenerateContentResponse) -> Seq<char> {
    if r.candidates@.len() > 0 && r.candidates@[0].content is Some {
        match first_text(r.candidates@[0].content->0.parts@) {
            Some(t) => t,
            None => Seq::empty(),
        }
    } else {
        Seq::empty()
    }
}

impl GenerateContentResponse {
    /// The text of the response (see `response_text`).
    pub fn text(&self) -> (s: String)
        ensures
            s@ == response_text(*self),
    {
        if self.candidates.len() > 0 {
            match &self.candidates[0].content {
                Some(content) => {
                    let mut i: usize = 0;
                    assert(content.parts@.skip(0) =~= content.parts@);
                    while i < content.parts.len()
                        invariant
                            self.candidates@.len() > 0,
                            self.candidates@[0].content == Some(*content),
                            i <= content.parts@.len(),
                            first_text(content.parts@) == first_text(content.parts@.skip(i as int)),
                        decreases content.parts@.len() - i,
                    {
                        assert(content.parts@.skip(i as int).drop_first() =~= content.parts@.skip(i + 1));
                        assert(content.parts@.skip(i as int)[0] == content.parts@[i as int]);
                        match &content.parts[i] {
                            Part::Text(t) => {
                                assert(first_text(content.parts@.skip(i as int)) == Some(t@));
                                assert(self.candidates@[0].content == Some(*content));
                                return t.clone();
                            },
                            _ => {},
                        }
                        i += 1;
                    }
                    return String::new();
                },
                None => {},
            }
        }
        String::new()
    }
}

/// Options of the HTTP client.
#[derive(Debug, Clone)]
pub struct HttpOptions {
    /// API version.
    pub api_version: String,
    /// Additional HTTP headers.
    pub headers: HashMap<String, String>,
    /// Whether requests answered with 429 Too Many Requests are retried.
    pub retry_on_rate_limit: bool,
    /// How many times a rate-limited request is retried.
    pub max_retries: u32,
    /// Seconds to wait before a retry when the server names no delay.
    pub default_retry_after_secs: u64,
    /// Whether the client paces its own requests.
    pub enable_client_side_rate_limiting: bool,
    /// Requests allowed per minute when the client paces itself.
    pub requests_per_minute: u32,
    /// Whether a paced request waits for a slot rather than failing.
    pub wait_when_rate_limited: bool,
}

/// The settings of `HttpOptions` that the client keeps.
pub struct OptionsView {
    pub api_version: Seq<char>,
    pub retry_on_rate_limit: bool,
    pub max_retries: u32,
    pub default_retry_after_secs: u64,
    pub enable_client_side_rate_limiting: bool,
    pub requests_per_minute: u32,
    pub wait_when_rate_limited: bool,
}

/// The client settings of `o`.
pub open spec fn options_view(o: HttpOptions) -> OptionsView {
    OptionsView {
        api_version: o.api_version@,
        retry_on_rate_limit: o.retry_on_rate_limit,
        max_retries: o.max_retries,
        default_retry_after_secs: o.default_retry_after_secs,
        enable_client_side_rate_limiting: o.enable_client_side_rate_limiting,
        requests_per_minute: o.requests_per_minute,
        wait_when_rate_limited: o.wait_when_rate_limited,
    }
}

/// The default settings: API version `v1beta`, no retries on 429 (up to
/// 3 when enabled, 60 s apart by default), and no client-side pacing (30
/// requests a minute when enabled, waiting for a free slot).
pub open spec fn default_options() -> OptionsView {
    OptionsView {
        api_version: "v1beta"@,
        retry_on_rate_limit: false,
        max_retries: 3,
        default_retry_after_secs: 60,
        enable_client_side_rate_limiting: false,
        requests_per_minute: 30,
        wait_when_rate_limited: true,
    }
}

impl Default for HttpOptions {
    fn default() -> (o: Self)
        ensures
            options_view(o) == default_options(),
            o.headers@.len() == 0,
    {
        HttpOptions {
            api_version: String::from_str("v1beta"),
            headers: HashMap::new(),
            retry_on_rate_limit: false,
            max_retries: 3,
            default_retry_after_secs: 60,
            enable_client_side_rate_limiting: false,
            requests_per_minute: 30,
            wait_when_rate_limited: true,
        }
    }
}

/// A token count.
#[derive(Debug, Clone, Copy)]
pub struct CountTokensResponse {
    /// Total tokens counted.
    pub total_tokens: i32,
}

/// Content to cache.
#[derive(Debug, Clone)]
pub struct CreateCachedContentConfig {
    /// Contents to cache.
    pub contents: Vec<Content>,
}

} // verus!
