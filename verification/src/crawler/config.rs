//! Crawler configuration, with a builder.

use vstd::prelude::*;

verus! {

/// How a website is crawled.
#[derive(Debug, Clone)]
pub struct CrawlerConfig {
    /// Maximum depth to crawl.
    pub max_depth: u32,
    /// Maximum number of pages to crawl.
    pub max_pages: u32,
    /// Delay between requests, in milliseconds.
    pub rate_limit_ms: u64,
    /// Whether to respect robots.txt.
    pub respect_robots_txt: bool,
    /// Whether to follow only links under the starting URL.
    pub child_links_only: bool,
    /// User agent sent with requests.
    pub user_agent: String,
    /// CSS selectors of content to keep.
    pub content_selectors: Vec<String>,
    /// CSS selectors of elements to drop.
    pub exclude_selectors: Vec<String>,
}

/// The user agent of a default configuration: the crawler's name and this
/// package's version.
pub open spec fn default_user_agent() -> Seq<char> {
    "hal-crawler/0.1.0"@
}

/// The elements a default configuration drops: navigation, headers,
/// footers, sidebars, ads and comments.
pub open spec fn default_exclude_selectors() -> Seq<Seq<char>> {
    seq![
        "nav"@, "header"@, "footer"@, "aside"@, ".navigation"@, ".menu"@, ".sidebar"@, ".ads"@,
        ".comments"@, "#nav"@, "#header"@, "#footer"@, "#sidebar"@, "#comments"@,
    ]
}

/// The views of a vector of strings.
pub open spec fn string_views(v: Vec<String>) -> Seq<Seq<char>> {
    v@.map_values(|s: String| s@)
}

/// Whether `c` is the default configuration.
pub open spec fn is_default_crawler_config(c: CrawlerConfig) -> bool {
    &&& c.max_depth == 2
    &&& c.max_pages == 100
    &&& c.rate_limit_ms == 500
    &&& c.respect_robots_txt
    &&& c.child_links_only
    &&& c.user_agent@ == default_user_agent()
    &&& c.content_selectors@.len() == 0
    &&& string_views(c.exclude_selectors) == default_exclude_selectors()
}

fn owned(s: &str) -> (r: String)
    ensures
        r@ == s@,
{
    String::from_str(s)
}

impl Default for CrawlerConfig {
    fn default() -> (c: Self)
        ensures
            is_default_crawler_config(c),
    {
        let names = [
            "nav", "header", "footer", "aside", ".navigation", ".menu", ".sidebar", ".ads",
            ".comments", "#nav", "#header", "#footer", "#sidebar", "#comments",
        ];
        let mut exclude: Vec<String> = Vec::new();
        let mut i: usize = 0;
        while i < 14
            invariant
                i <= 14,
                names@ == seq![
                    "nav", "header", "footer", "aside", ".navigation", ".menu", ".sidebar", ".ads",
                    ".comments", "#nav", "#header", "#footer", "#sidebar", "#comments",
                ],
                string_views(exclude) == default_exclude_selectors().take(i as int),
            decreases 14 - i,
        {
            let ghost before = exclude@;
            exclude.push(owned(names[i]));
            assert(string_views(exclude) =~= before.map_values(|s: String| s@).push(names@[i as int]@));
            assert(default_exclude_selectors().take(i + 1) =~= default_exclude_selectors().take(i as int).push(default_exclude_selectors()[i as int]));
            i += 1;
        }
        assert(default_exclude_selectors().take(14) =~= default_exclude_selectors());
        CrawlerConfig {
            max_depth: 2,
            max_pages: 100,
            rate_limit_ms: 500,
            respect_robots_txt: true,
            child_links_only: true,
            user_agent: owned("hal-crawler/0.1.0"),
            content_selectors: Vec::new(),
            exclude_selectors: exclude,
        }
    }
}

/// The length of `d` in nanoseconds (what `Duration::as_nanos` reports).
pub uninterp spec fn duration_nanos(d: std::time::Duration) -> int;

/// `Duration::from_millis` makes a duration of exactly the given number of
/// milliseconds: `millis * 1_000_000` nanoseconds, nothing more. A
/// duration is its whole seconds and the nanoseconds below a second, so
/// it is the only duration of that length.
pub assume_specification[ std::time::Duration::from_millis ](millis: u64) -> (d: std::time::Duration)
    ensures
        duration_nanos(d) == millis as int * 1_000_000,
        forall|e: std::time::Duration| #[trigger] duration_nanos(e) == duration_nanos(d) ==> e == d,
;

impl CrawlerConfig {
    /// The delay between requests.
    pub fn rate_limit(&self) -> (d: std::time::Duration)
        ensures
            duration_nanos(d) == self.rate_limit_ms as int * 1_000_000,
    {
        std::time::Duration::from_millis(self.rate_limit_ms)
    }

    /// A builder that starts from the default configuration.
    pub fn builder() -> (b: CrawlerConfigBuilder)
        ensures
            is_default_crawler_config(b.config),
    {
        CrawlerConfigBuilder::new()
    }
}

/// Builder for `CrawlerConfig`.
#[derive(Debug)]
pub struct CrawlerConfigBuilder {
    pub config: CrawlerConfig,
}

impl CrawlerConfigBuilder {
    /// A builder that starts from the default configuration.
    pub fn new() -> (b: Self)
        ensures
            is_default_crawler_config(b.config),
    {
        CrawlerConfigBuilder { config: CrawlerConfig::default() }
    }

    /// Sets the maximum depth.
    pub fn max_depth(self, max_depth: u32) -> (b: Self)
        ensures
            b.config == (CrawlerConfig { max_depth, ..self.config }),
    {
        let mut b = self;
        b.config.max_depth = max_depth;
        b
    }

    /// Sets the maximum number of pages.
    pub fn max_pages(self, max_pages: u32) -> (b: Self)
        ensures
            b.config == (CrawlerConfig { max_pages, ..self.config }),
    {
        let mut b = self;
        b.config.max_pages = max_pages;
        b
    }

    /// Sets the delay between requests, in milliseconds.
    pub fn rate_limit_ms(self, rate_limit_ms: u64) -> (b: Self)
        ensures
            b.config == (CrawlerConfig { rate_limit_ms, ..self.config }),
    {
        let mut b = self;
        b.config.rate_limit_ms = rate_limit_ms;
        b
    }

    /// Sets whether robots.txt is respected.
    pub fn respect_robots_txt(self, respect_robots_txt: bool) -> (b: Self)
        ensures
            b.config == (CrawlerConfig { respect_robots_txt, ..self.config }),
    {
        let mut b = self;
        b.config.respect_robots_txt = respect_robots_txt;
        b
    }

    /// Sets the user agent.
    pub fn user_agent(self, user_agent: &str) -> (b: Self)
        ensures
            b.config.user_agent@ == user_agent@,
            b.config == (CrawlerConfig { user_agent: b.config.user_agent, ..self.config }),
    {
        let mut b = self;
        b.config.user_agent = owned(user_agent);
        b
    }

    /// Sets the selectors of content to keep.
    pub fn content_selectors(self, content_selectors: Vec<String>) -> (b: Self)
        ensures
            b.config == (CrawlerConfig { content_selectors, ..self.config }),
    {
        let mut b = self;
        b.config.content_selectors = content_selectors;
        b
    }

    /// Sets the selectors of elements to drop.
    pub fn exclude_selectors(self, exclude_selectors: Vec<String>) -> (b: Self)
        ensures
            b.config == (CrawlerConfig { exclude_selectors, ..self.config }),
    {
        let mut b = self;
        b.config.exclude_selectors = exclude_selectors;
        b
    }

    /// The configuration built so far.
    pub fn build(self) -> (c: CrawlerConfig)
        ensures
            c == self.config,
    {
        self.config
    }
}

} // verus!
