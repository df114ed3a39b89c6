//! The index of crawled websites: website records, and the decisions that
//! updating the index makes before it writes to the database.

pub mod error;

pub use error::DbError;

use crate::processor::chunking::TextChunk;
use crate::processor::ChunkMetadata;
use crate::text::starts_with;
use crate::urls::{parse_error_text, parse_url, parsed_url};
use vstd::prelude::*;

verus! {

/// A website in the index.
#[derive(Debug, Clone)]
pub struct Website {
    /// ID of the website.
    pub id: i64,
    /// URL of the website (scheme and host).
    pub url: String,
    /// Domain of the website.
    pub domain: String,
    /// Time of the first indexing, in seconds since the Unix epoch.
    pub first_index_date: i64,
    /// Time of the last indexing, in seconds since the Unix epoch.
    pub last_index_date: i64,
    /// Number of pages indexed.
    pub page_count: i64,
    /// Status of the website.
    pub status: String,
}

/// `e` is `DbError::Data` with message `msg`.
pub open spec fn is_data_error(e: DbError, msg: Seq<char>) -> bool {
    e matches DbError::Data(m) && m@ == msg
}

/// The site that a page URL belongs to: its base URL (`scheme://host`)
/// and its domain (the host).
pub open spec fn site_of(u: crate::urls::UrlView) -> Option<(Seq<char>, Seq<char>)> {
    match u.host {
        Some(h) => Some((u.scheme + "://"@ + h, h)),
        None => None,
    }
}

/// The base URL and domain of the website that the page `url` belongs to.
/// A URL that does not parse, or has no host, is a data error.
pub fn site_of_url(url: &str) -> (r: Result<(String, String), DbError>)
    ensures
        match parsed_url(url@) {
            None => r matches Err(DbError::Data(m)) && starts_with(m@, "Failed to parse URL: "@),
            Some(u) => match site_of(u) {
                None => r matches Err(e) && is_data_error(e, "URL has no host"@),
                Some((base, domain)) => r matches Ok((b, d)) && b@ == base && d@ == domain,
            },
        },
{
    let parts = match parse_url(url) {
        Ok(p) => p,
        Err(e) => {
            let mut m = String::from_str("Failed to parse URL: ");
            let text = parse_error_text(&e);
            let ghost pre = m@;
            m.append(text.as_str());
            assert(m@.take(pre.len() as int) =~= pre);
            return Err(DbError::Data(m));
        },
    };
    match parts.host {
        None => Err(DbError::Data(String::from_str("URL has no host"))),
        Some(host) => {
            let mut base = parts.scheme.clone();
            base.append("://");
            base.append(host.as_str());
            Ok((base, host))
        },
    }
}


/// The record of a website indexed for the first time at `now`: one page,
/// active; the database assigns its id.
pub fn new_website(url: String, domain: String, now: i64) -> (w: Website)
    ensures
        w.id == 0,
        w.url == url,
        w.domain == domain,
        w.first_index_date == now,
        w.last_index_date == now,
        w.page_count == 1,
        w.status@ == "active"@,
{
    Website {
        id: 0,
        url,
        domain,
        first_index_date: now,
        last_index_date: now,
        page_count: 1,
        status: String::from_str("active"),
    }
}

/// The metadata of chunk `chunk` of the page at `url`.
pub fn chunk_metadata(url: &str, chunk: &TextChunk) -> (m: ChunkMetadata)
    ensures
        m.source_url@ == url@,
        m.position == chunk.position,
        m.heading == chunk.heading,
{
    ChunkMetadata {
        source_url: String::from_str(url),
        position: chunk.position,
        heading: match &chunk.heading {
            Some(h) => Some(h.clone()),
            None => None,
        },
    }
}

/// The query that selects the chunks to embed again, with the websites
/// they belong to.
pub open spec fn chunks_query_base() -> Seq<char> {
    "SELECT c.id, c.website_id, c.url, c.text, c.summary, c.context, c.embedding, c.position, c.heading\n             FROM chunks c\n             JOIN websites w ON c.website_id = w.id"@
}

/// The query that selects the chunks to embed again, and its parameter:
/// all chunks, or with `source_filter`, those of websites whose domain
/// contains it.
pub fn reembed_query(source_filter: Option<&str>) -> (r: (String, Option<String>))
    ensures
        match source_filter {
            None => r.0@ == chunks_query_base() && r.1 is None,
            Some(f) => r.0@ == chunks_query_base() + " WHERE w.domain LIKE ?"@
                && (r.1 matches Some(p) && p@ == "%"@ + f@ + "%"@),
        },
{
    let mut sql = String::from_str(
        "SELECT c.id, c.website_id, c.url, c.text, c.summary, c.context, c.embedding, c.position, c.heading\n             FROM chunks c\n             JOIN websites w ON c.website_id = w.id",
    );
    match source_filter {
        None => (sql, None),
        Some(f) => {
            sql.append(" WHERE w.domain LIKE ?");
            let mut p = String::from_str("%");
            p.append(f);
            p.append("%");
            (sql, Some(p))
        },
    }
}

} // verus!
