//! Metadata of a crawled page: its domain, and the title, description and
//! author that its HTML declares, read with the `scraper` crate.

use crate::crawler::error::CrawlError;
use crate::crawler::PageMetadata;
use crate::urls::{parse_url, parsed_url};
use vstd::prelude::*;

verus! {

/// Whether `scraper::Selector::parse` accepts the CSS selector `selector`.
pub uninterp spec fn css_selector_valid(selector: Seq<char>) -> bool;

/// The text of the first element of the HTML document `html` that the
/// selector matches (all text below it, in document order), if any.
pub uninterp spec fn first_element_text(html: Seq<char>, selector: Seq<char>) -> Option<Seq<char>>;

/// The value of attribute `attr` of the first element of the HTML document
/// `html` that the selector matches, when there is such an element and it
/// has the attribute.
pub uninterp spec fn first_element_attr(html: Seq<char>, selector: Seq<char>, attr: Seq<char>) -> Option<Seq<char>>;

/// Parses `html` with `scraper::Html::parse_document` and `selector` with
/// `scraper::Selector::parse`, and collects the text of the first matching
/// element. An invalid selector gives the parser's message.
#[verifier::external_body]
fn select_first_text(html: &str, selector: &str) -> (r: Result<Option<String>, String>)
    ensures
        match r {
            Ok(t) => css_selector_valid(selector@) && match t {
                Some(s) => first_element_text(html@, selector@) == Some(s@),
                None => first_element_text(html@, selector@) is None,
            },
            Err(_) => !css_selector_valid(selector@),
        },
{
    let sel = scraper::Selector::parse(selector).map_err(|e| e.to_string())?;
    let doc = scraper::Html::parse_document(html);
    Ok(doc.select(&sel).next().map(|element| element.text().collect::<String>()))
}

/// Parses `html` and `selector` as `select_first_text` does, and reads
/// attribute `attr` of the first matching element.
#[verifier::external_body]
fn select_first_attr(html: &str, selector: &str, attr: &str) -> (r: Result<Option<String>, String>)
    ensures
        match r {
            Ok(t) => css_selector_valid(selector@) && match t {
                Some(s) => first_element_attr(html@, selector@, attr@) == Some(s@),
                None => first_element_attr(html@, selector@, attr@) is None,
            },
            Err(_) => !css_selector_valid(selector@),
        },
{
    let sel = scraper::Selector::parse(selector).map_err(|e| e.to_string())?;
    let doc = scraper::Html::parse_document(html);
    Ok(doc.select(&sel).next().and_then(|element| element.value().attr(attr)).map(|s| s.to_string()))
}

/// The view of an optional string.
pub open spec fn opt_text(o: Option<String>) -> Option<Seq<char>> {
    match o {
        Some(s) => Some(s@),
        None => None,
    }
}

/// `e` is the error for the `what` selector: an `HtmlParse` error whose
/// message starts with `Failed to parse {what} selector: `.
pub open spec fn is_selector_error(e: CrawlError, what: Seq<char>) -> bool {
    let pre = "Failed to parse "@ + what + " selector: "@;
    e matches CrawlError::HtmlParse(m) && m@.len() >= pre.len() && m@.take(pre.len() as int) == pre
}

/// `"Failed to parse " + what + " selector: " + detail`.
fn selector_error(what: &str, detail: String) -> (e: CrawlError)
    ensures
        is_selector_error(e, what@),
{
    let mut m = String::from_str("Failed to parse ");
    m.append(what);
    m.append(" selector: ");
    let ghost pre = m@;
    m.append(detail.as_str());
    assert(m@.take(pre.len() as int) =~= pre);
    CrawlError::HtmlParse(m)
}

/// The metadata of the page at `url` with HTML `html`: the host of the URL
/// as domain, the text of the first `title` element, and the `content` of
/// the first `meta` elements named `description` and `author`. A URL that
/// does not parse, or has no host, is an error; so is a selector that does
/// not parse.
pub fn extract_metadata(url: &str, html: &str) -> (r: Result<PageMetadata, CrawlError>)
    ensures
        match parsed_url(url@) {
            None => r matches Err(CrawlError::UrlParse(_)),
            Some(u) => match u.host {
                None => r matches Err(CrawlError::Other(m)) && m@ == "Failed to extract domain from URL"@,
                Some(domain) => if !css_selector_valid("title"@) {
                    r matches Err(e) && is_selector_error(e, "title"@)
                } else if !css_selector_valid("meta[name='description']"@) {
                    r matches Err(e) && is_selector_error(e, "description"@)
                } else if !css_selector_valid("meta[name='author']"@) {
                    r matches Err(e) && is_selector_error(e, "author"@)
                } else {
                    r matches Ok(m) && m.domain@ == domain
                        && opt_text(m.title) == first_element_text(html@, "title"@)
                        && opt_text(m.description) == first_element_attr(
                            html@,
                            "meta[name='description']"@,
                            "content"@,
                        )
                        && opt_text(m.author) == first_element_attr(html@, "meta[name='author']"@, "content"@)
                        && m.publication_date is None
                },
            },
        },
{
    let parts = match parse_url(url) {
        Ok(p) => p,
        Err(e) => return Err(CrawlError::UrlParse(e)),
    };
    let domain = match parts.host {
        Some(h) => h,
        None => return Err(CrawlError::Other(String::from_str("Failed to extract domain from URL"))),
    };
    let title = match select_first_text(html, "title") {
        Ok(t) => t,
        Err(e) => return Err(selector_error("title", e)),
    };
    let description = match select_first_attr(html, "meta[name='description']", "content") {
        Ok(t) => t,
        Err(e) => return Err(selector_error("description", e)),
    };
    let author = match select_first_attr(html, "meta[name='author']", "content") {
        Ok(t) => t,
        Err(e) => return Err(selector_error("author", e)),
    };
    Ok(PageMetadata { title, description, publication_date: None, author, domain })
}

} // verus!
