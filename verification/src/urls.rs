//! URL parsing, through the `url` crate.

use vstd::prelude::*;

verus! {

#[verifier::external_type_specification]
#[verifier::external_body]
pub struct ExUrlParseError(url::ParseError);

/// The parts of a URL that the library reads.
#[derive(Debug, Clone)]
pub struct UrlParts {
    /// The scheme, such as `https`.
    pub scheme: String,
    /// The host, for URLs that have one.
    pub host: Option<String>,
    /// The path, percent-encoded as the parser leaves it.
    pub path: String,
}

/// A parsed URL as the contracts see it.
pub struct UrlView {
    pub scheme: Seq<char>,
    pub host: Option<Seq<char>>,
    pub path: Seq<char>,
}

impl View for UrlParts {
    type V = UrlView;

    open spec fn view(&self) -> UrlView {
        UrlView {
            scheme: self.scheme@,
            host: match self.host {
                Some(h) => Some(h@),
                None => None,
            },
            path: self.path@,
        }
    }
}

/// What `url::Url::parse` yields for `s`: the scheme, host and path of the
/// URL, or nothing when it rejects `s`.
pub uninterp spec fn parsed_url(s: Seq<char>) -> Option<UrlView>;

/// Parses `s` with `url::Url::parse` and reads its `scheme()`,
/// `host_str()` and `path()`. The contract ties the result to `parsed_url`
/// and states no more of the URL grammar.
#[verifier::external_body]
pub fn parse_url(s: &str) -> (r: Result<UrlParts, url::ParseError>)
    ensures
        match r {
            Ok(p) => parsed_url(s@) == Some(p@),
            Err(_) => parsed_url(s@) is None,
        },
{
    let parsed = url::Url::parse(s)?;
    Ok(UrlParts {
        scheme: parsed.scheme().to_string(),
        host: parsed.host_str().map(|h| h.to_string()),
        path: parsed.path().to_string(),
    })
}

/// The message of a URL parse error: `url::ParseError`'s `Display`,
/// through `to_string`. Nothing is stated of the text.
#[verifier::external_body]
pub(crate) fn parse_error_text(e: &url::ParseError) -> String {
    e.to_string()
}

} // verus!
