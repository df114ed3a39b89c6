use hal::crawler::content_extraction::extract_metadata;
use hal::crawler::spider_integration::{crawl_allowlist, page_record};
use hal::crawler::storage::{extract_domain, get_storage_path, PageEntry, Storage, StorageConfig, StorageError};
use hal::crawler::{CrawlError, CrawledPage, CrawlerConfig, PageMetadata};

#[test]
fn crawler_test_page_metadata() {
    let metadata = PageMetadata {
        title: Some("Test Page".to_string()),
        description: Some("Test description".to_string()),
        publication_date: None,
        author: Some("Test Author".to_string()),
        domain: "example.com".to_string(),
    };
    assert_eq!(metadata.title.as_deref().unwrap(), "Test Page");
    assert_eq!(metadata.description.as_deref().unwrap(), "Test description");
    assert_eq!(metadata.author.as_deref().unwrap(), "Test Author");
    assert_eq!(metadata.domain, "example.com");
}

#[test]
fn mod_test_page_metadata() {
    let metadata = PageMetadata {
        title: Some("Test Page".to_string()),
        description: Some("Test description".to_string()),
        publication_date: None,
        author: Some("Test Author".to_string()),
        domain: "example.com".to_string(),
    };
    assert_eq!(metadata.title.as_deref().unwrap(), "Test Page");
    assert_eq!(metadata.description.as_deref().unwrap(), "Test description");
    assert_eq!(metadata.author.as_deref().unwrap(), "Test Author");
    assert_eq!(metadata.domain, "example.com");
}

#[test]
fn test_extract_domain() {
    assert_eq!(extract_domain("https://example.com/page").unwrap(), "example.com");
    assert_eq!(extract_domain("http://sub.example.com/path").unwrap(), "sub.example.com");
}

#[test]
fn test_get_storage_path() {
    let storage = Storage::new();
    let path = storage.get_storage_path("https://example.com/").unwrap();
    assert_eq!(path, ".hal/crawler/example.com/index.xml");

    let config = StorageConfig { base_path: "/tmp/crawler".to_string() };
    let storage = Storage::with_config(config);
    let path = storage.get_storage_path("https://example.com/").unwrap();
    assert_eq!(path, "/tmp/crawler/example.com/index.xml");

    let path = get_storage_path("https://example.com/page").unwrap();
    assert_eq!(path, ".hal/crawler/example.com/page.xml");

    let path = get_storage_path("https://example.com/dir/page").unwrap();
    assert_eq!(path, ".hal/crawler/example.com/dir_page.xml");
}

#[test]
fn test_conversion() {
    let crawled = CrawledPage {
        url: "https://example.com/a".to_string(),
        content: "# Title\nContent".to_string(),
        metadata: PageMetadata {
            title: Some("Example Page".to_string()),
            description: Some("An example page".to_string()),
            domain: "https://example.com".to_string(),
            publication_date: None,
            author: None,
        },
    };
    let entry: PageEntry = crawled.clone().into();
    assert_eq!(entry.url, crawled.url);
    assert_eq!(entry.content, crawled.content);
    let back: CrawledPage = entry.into();
    assert_eq!(back.url, crawled.url);
    assert_eq!(back.content, crawled.content);
}

#[test]
fn test_storage_with_custom_config() {
    let config = StorageConfig { base_path: "/custom/path".to_string() };
    let storage = Storage::with_config(config);
    assert_eq!(storage.config().base_path, "/custom/path");
}

#[test]
fn storage_refuses_url_without_host() {
    assert!(matches!(extract_domain("mailto:someone@example.com"), Err(StorageError::InvalidUrl(_))));
    assert!(matches!(extract_domain("not a url"), Err(StorageError::UrlParse(_))));
}

#[test]
fn default_crawler_config() {
    let c = CrawlerConfig::default();
    assert_eq!(c.max_depth, 2);
    assert_eq!(c.max_pages, 100);
    assert_eq!(c.rate_limit_ms, 500);
    assert!(c.respect_robots_txt);
    assert!(c.child_links_only);
    assert_eq!(c.user_agent, "hal-crawler/0.1.0");
    assert!(c.content_selectors.is_empty());
    assert_eq!(c.exclude_selectors.len(), 14);
    assert_eq!(c.rate_limit(), std::time::Duration::from_millis(500));
}

#[test]
fn crawler_builder_sets_fields() {
    let c = CrawlerConfig::builder()
        .max_depth(3)
        .max_pages(7)
        .rate_limit_ms(1000)
        .respect_robots_txt(false)
        .user_agent("hal-rag/0.1")
        .content_selectors(vec!["main".to_string()])
        .exclude_selectors(vec!["nav".to_string()])
        .build();
    assert_eq!(c.max_depth, 3);
    assert_eq!(c.max_pages, 7);
    assert_eq!(c.rate_limit_ms, 1000);
    assert!(!c.respect_robots_txt);
    assert_eq!(c.user_agent, "hal-rag/0.1");
    assert_eq!(c.content_selectors, vec!["main".to_string()]);
    assert_eq!(c.exclude_selectors, vec!["nav".to_string()]);
}

#[test]
fn metadata_from_html() {
    let html = r#"<html><head><title>My Page</title>
        <meta name="description" content="About things">
        <meta name="author" content="Ada"></head><body><p>Hi</p></body></html>"#;
    let m = extract_metadata("https://www.example.org/a/b", html).unwrap();
    assert_eq!(m.domain, "www.example.org");
    assert_eq!(m.title.as_deref(), Some("My Page"));
    assert_eq!(m.description.as_deref(), Some("About things"));
    assert_eq!(m.author.as_deref(), Some("Ada"));
    assert!(m.publication_date.is_none());
}

#[test]
fn metadata_without_title_or_meta() {
    let m = extract_metadata("https://example.com", "<p>plain</p>").unwrap();
    assert!(m.title.is_none());
    assert!(m.description.is_none());
    assert!(m.author.is_none());
}

#[test]
fn metadata_errors() {
    assert!(matches!(extract_metadata("::bad::", "<p></p>"), Err(CrawlError::UrlParse(_))));
    match extract_metadata("data:text/plain,hello", "<p></p>") {
        Err(CrawlError::Other(m)) => assert_eq!(m, "Failed to extract domain from URL"),
        other => panic!("unexpected {:?}", other),
    }
}

#[test]
fn allowlist_for_child_links() {
    let p = crawl_allowlist("https://docs.example.com/guide/v1.0/", true).unwrap();
    assert_eq!(p.as_deref(), Some(r"^https://docs\.example\.com/guide/v1\.0/.*"));
    assert_eq!(crawl_allowlist("https://docs.example.com/guide/", false).unwrap(), None);
    assert!(matches!(crawl_allowlist("nope", true), Err(CrawlError::UrlParse(_))));
}

#[test]
fn short_pages_are_skipped() {
    let meta = PageMetadata {
        title: None,
        description: None,
        publication_date: None,
        author: None,
        domain: "example.com".to_string(),
    };
    assert!(page_record("https://example.com".to_string(), "short".to_string(), Ok(meta.clone())).is_none());
    let body = "word ".repeat(20);
    let kept = page_record("https://example.com".to_string(), body.clone(), Ok(meta)).unwrap();
    assert_eq!(kept.content, body);
    assert_eq!(kept.metadata.domain, "example.com");
    let fallback = page_record(
        "https://example.com/x".to_string(),
        body,
        Err(CrawlError::Other("boom".to_string())),
    )
    .unwrap();
    assert_eq!(fallback.metadata.domain, "https://example.com/x");
    assert!(fallback.metadata.title.is_none());
}

#[test]
fn rate_limit_is_exactly_the_configured_millis() {
    let c = hal::crawler::CrawlerConfig::builder().rate_limit_ms(1500).build();
    assert_eq!(c.rate_limit(), std::time::Duration::from_millis(1500));
    assert_eq!(c.rate_limit().as_nanos(), 1_500_000_000);
}
