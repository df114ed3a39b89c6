//! The crawl's own decisions: which links it may follow, and which
//! fetched pages it keeps and how.

use crate::crawler::error::CrawlError;
use crate::crawler::{CrawledPage, PageMetadata};
use crate::mcp::regex_search::{compile_regex, regex_compiles, regex_error_text};
use crate::urls::{parse_url, parsed_url};
use vstd::prelude::*;

verus! {

/// A character with a meaning in a regular expression
/// (`regex_syntax::is_meta_character`).
pub open spec fn is_regex_meta(c: char) -> bool {
    c == '\\' || c == '.' || c == '+' || c == '*' || c == '?' || c == '(' || c == ')' || c == '|'
        || c == '[' || c == ']' || c == '{' || c == '}' || c == '^' || c == '$' || c == '#'
        || c == '&' || c == '-' || c == '~'
}

/// `s` with a backslash before every meta character (`regex::escape`).
pub open spec fn regex_escaped(s: Seq<char>) -> Seq<char>
    decreases s.len(),
{
    if s.len() == 0 {
        Seq::empty()
    } else {
        let rest = regex_escaped(s.drop_last());
        if is_regex_meta(s.last()) {
            rest + seq!['\\', s.last()]
        } else {
            rest.push(s.last())
        }
    }
}

/// Calls `regex::escape`, which puts a backslash before every meta
/// character of `s` and copies the other characters.
#[verifier::external_body]
fn escape_regex(s: &str) -> (r: String)
    ensures
        r@ == regex_escaped(s@),
{
    regex::escape(s)
}

/// The error `url::ParseError::EmptyHost`.
#[verifier::external_body]
fn empty_host_error() -> url::ParseError {
    url::ParseError::EmptyHost
}

/// The pattern of the links that a crawl restricted to the children of a
/// URL with `scheme`, `host` and `path` may follow.
pub open spec fn child_link_pattern(scheme: Seq<char>, host: Seq<char>, path: Seq<char>) -> Seq<char> {
    "^"@ + scheme + "://"@ + regex_escaped(host) + regex_escaped(path) + ".*"@
}

/// The allow-list of a crawl from `url`: with `child_links_only`, the one
/// pattern of the links below `url`; otherwise none. A URL that does not
/// parse, or has no host, is an error either way.
pub fn crawl_allowlist(url: &str, child_links_only: bool) -> (r: Result<Option<String>, CrawlError>)
    ensures
        match parsed_url(url@) {
            None => r matches Err(CrawlError::UrlParse(_)),
            Some(u) => match u.host {
                None => r matches Err(CrawlError::UrlParse(_)),
                Some(h) => {
                    let p = child_link_pattern(u.scheme, h, u.path);
                    if !child_links_only {
                        r matches Ok(None)
                    } else if regex_compiles(p) {
                        r matches Ok(Some(s)) && s@ == p
                    } else {
                        r matches Err(CrawlError::Other(m)) && m@.len() >= 32
                            && m@.take(32) == "Failed to create regex pattern: "@
                    }
                },
            },
        },
{
    let parts = match parse_url(url) {
        Ok(p) => p,
        Err(e) => return Err(CrawlError::UrlParse(e)),
    };
    let base_path = escape_regex(parts.path.as_str());
    let host = match &parts.host {
        Some(h) => h,
        None => return Err(CrawlError::UrlParse(empty_host_error())),
    };
    let domain = escape_regex(host.as_str());
    if !child_links_only {
        return Ok(None);
    }
    let mut pattern = String::from_str("^");
    pattern.append(parts.scheme.as_str());
    pattern.append("://");
    pattern.append(domain.as_str());
    pattern.append(base_path.as_str());
    pattern.append(".*");
    match compile_regex(pattern.as_str()) {
        Ok(_) => Ok(Some(pattern)),
        Err(e) => {
            let mut m = String::from_str("Failed to create regex pattern: ");
            let text = regex_error_text(&e);
            m.append(text.as_str());
            proof {
                reveal_strlit("Failed to create regex pattern: ");
            }
            assert(m@.take(32) =~= "Failed to create regex pattern: "@);
            Err(CrawlError::Other(m))
        },
    }
}

/// The length of `s` in UTF-8 bytes, as `str::len` reports it.
pub open spec fn byte_len(s: Seq<char>) -> usize {
    vstd::utf8::encode_utf8(s).len() as usize
}

/// Pages whose Markdown has fewer bytes than this are skipped.
pub const MIN_PAGE_BYTES: usize = 100;

/// What the crawl keeps of the page at `url` with Markdown `markdown`:
/// nothing when the Markdown is shorter than `MIN_PAGE_BYTES` bytes;
/// otherwise the page with its metadata, or, where extracting the metadata
/// failed, with none but the URL as domain.
pub fn page_record(url: String, markdown: String, metadata: Result<PageMetadata, CrawlError>) -> (r: Option<CrawledPage>)
    ensures
        byte_len(markdown@) < MIN_PAGE_BYTES ==> r is None,
        byte_len(markdown@) >= MIN_PAGE_BYTES ==> (r matches Some(p) && p.url@ == url@
            && p.content@ == markdown@
            && match metadata {
                Ok(m) => p.metadata == m,
                Err(_) => p.metadata.title is None && p.metadata.description is None
                    && p.metadata.author is None && p.metadata.publication_date is None
                    && p.metadata.domain@ == url@,
            }),
{
    if markdown.as_str().len() < MIN_PAGE_BYTES {
        return None;
    }
    let metadata = match metadata {
        Ok(m) => m,
        Err(_) => PageMetadata {
            title: None,
            description: None,
            author: None,
            publication_date: None,
            domain: url.clone(),
        },
    };
    Some(CrawledPage { url, content: markdown, metadata })
}

} // verus!
