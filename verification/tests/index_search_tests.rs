use hal::gemini::types::Part;
use hal::index::{chunk_metadata, new_website, site_of_url, DbError, Website};
use hal::processor::TextChunk;
use hal::search::{prepare_rag_context, rag_request, SearchOptions, SearchResult};
use hal::Error;

#[test]
fn test_website_struct() {
    let website = Website {
        id: 1,
        url: "https://example.com".to_string(),
        domain: "example.com".to_string(),
        first_index_date: 1625097600,
        last_index_date: 1625097600,
        page_count: 10,
        status: "active".to_string(),
    };
    assert_eq!(website.id, 1);
    assert_eq!(website.url, "https://example.com");
    assert_eq!(website.domain, "example.com");
    assert_eq!(website.first_index_date, 1625097600);
    assert_eq!(website.last_index_date, 1625097600);
    assert_eq!(website.page_count, 10);
    assert_eq!(website.status, "active");
}

#[test]
fn test_search_options() {
    let options = SearchOptions {
        limit: 10,
        source_filter: Some("example.com".to_string()),
        date_range: Some((1000, 2000)),
    };
    assert_eq!(options.limit, 10);
    assert_eq!(options.source_filter.as_deref().unwrap(), "example.com");
    assert_eq!(options.date_range.unwrap(), (1000, 2000));
}

#[test]
fn test_search_options_default() {
    let options = SearchOptions::default();
    assert_eq!(options.limit, 10);
    assert!(options.source_filter.is_none());
    assert!(options.date_range.is_none());
}

#[test]
fn site_of_page_url() {
    let (base, domain) = site_of_url("https://docs.example.com/a/b?c=d").unwrap();
    assert_eq!(base, "https://docs.example.com");
    assert_eq!(domain, "docs.example.com");
    assert_eq!(site_of_url("mailto:x@example.com"), Err(DbError::Data("URL has no host".to_string())));
    match site_of_url("no url") {
        Err(DbError::Data(m)) => assert!(m.starts_with("Failed to parse URL: ")),
        other => panic!("unexpected {:?}", other),
    }
}

#[test]
fn new_website_record() {
    let w = new_website("https://example.com".to_string(), "example.com".to_string(), 1625097600);
    assert_eq!(w.id, 0);
    assert_eq!(w.page_count, 1);
    assert_eq!(w.first_index_date, 1625097600);
    assert_eq!(w.last_index_date, 1625097600);
    assert_eq!(w.status, "active");
}

#[test]
fn metadata_of_chunk() {
    let chunk = TextChunk { text: "t".to_string(), position: 4, heading: Some("H".to_string()) };
    let m = chunk_metadata("https://example.com/p", &chunk);
    assert_eq!(m.source_url, "https://example.com/p");
    assert_eq!(m.position, 4);
    assert_eq!(m.heading.as_deref(), Some("H"));
}

#[test]
fn db_error_messages() {
    assert_eq!(DbError::Query("bad".to_string()).message(), "SQL query error: bad");
    assert_eq!(DbError::Other("plain".to_string()).message(), "plain");
    assert_eq!(
        DbError::Data("x".to_string()).to_crate_error(),
        Error::Database("Data error: x".to_string())
    );
}

#[test]
fn rag_context_numbers_sources() {
    let results = vec![
        SearchResult { text: "First".to_string(), url: "https://a".to_string(), context: "c1".to_string() },
        SearchResult { text: "Second".to_string(), url: "https://b".to_string(), context: "c2".to_string() },
    ];
    assert_eq!(
        prepare_rag_context(&results),
        "Source 1:\nURL: https://a\nContent: First\n\nSource 2:\nURL: https://b\nContent: Second\n\n"
    );
    assert_eq!(prepare_rag_context(&vec![]), "");
}

#[test]
fn rag_request_contents() {
    let (system, user) = rag_request("What?", "ctx");
    assert_eq!(system.role.as_deref(), Some("system"));
    assert_eq!(user.role.as_deref(), Some("user"));
    assert!(matches!(&user.parts[0], Part::Text(t) if t == "Context:\nctx\n\nQuestion: What?\n\nAnswer:"));
    assert!(matches!(&system.parts[0], Part::Text(t) if t.starts_with("You are a helpful assistant")));
}
