//! Where crawled pages are stored: one XML file per page, under a
//! directory per domain. Reading and writing the files is left to the
//! caller; this module decides the paths and frames the documents.

use crate::crawler::{CrawledPage, PageMetadata};
use crate::text::{chars_of, push_char, trim_char_bounds, trim_char_seq};
use crate::urls::{parse_url, parsed_url};
use vstd::prelude::*;

verus! {

/// Storage configuration.
#[derive(Debug, Clone)]
pub struct StorageConfig {
    /// Directory under which pages are stored.
    pub base_path: String,
}

impl Default for StorageConfig {
    fn default() -> (c: Self)
        ensures
            c.base_path@ == ".hal/crawler"@,
    {
        StorageConfig { base_path: String::from_str(".hal/crawler") }
    }
}

/// The stored form of a page.
#[derive(Debug, Clone)]
pub struct PageEntry {
    /// URL of the page.
    pub url: String,
    /// Content of the page in Markdown.
    pub content: String,
    /// Metadata extracted from the page.
    pub metadata: PageMetadata,
}

/// The pages of one stored file.
#[derive(Debug, Clone)]
pub struct Pages {
    pub pages: Vec<PageEntry>,
}

impl From<CrawledPage> for PageEntry {
    fn from(page: CrawledPage) -> (e: Self) {
        PageEntry { url: page.url, content: page.content, metadata: page.metadata }
    }
}

impl vstd::std_specs::convert::FromSpecImpl<CrawledPage> for PageEntry {
    open spec fn obeys_from_spec() -> bool {
        true
    }

    open spec fn from_spec(page: CrawledPage) -> Self {
        PageEntry { url: page.url, content: page.content, metadata: page.metadata }
    }
}

impl From<PageEntry> for CrawledPage {
    fn from(entry: PageEntry) -> (p: Self) {
        CrawledPage { url: entry.url, content: entry.content, metadata: entry.metadata }
    }
}

impl vstd::std_specs::convert::FromSpecImpl<PageEntry> for CrawledPage {
    open spec fn obeys_from_spec() -> bool {
        true
    }

    open spec fn from_spec(entry: PageEntry) -> Self {
        CrawledPage { url: entry.url, content: entry.content, metadata: entry.metadata }
    }
}

/// A page and its stored form carry the same data: converting one into the
/// other and back gives what one started with, in either order.
pub proof fn lemma_page_entry_round_trip(page: CrawledPage, entry: PageEntry)
    ensures
        <CrawledPage as vstd::std_specs::convert::FromSpec<PageEntry>>::from_spec(
            <PageEntry as vstd::std_specs::convert::FromSpec<CrawledPage>>::from_spec(page),
        ) == page,
        <PageEntry as vstd::std_specs::convert::FromSpec<CrawledPage>>::from_spec(
            <CrawledPage as vstd::std_specs::convert::FromSpec<PageEntry>>::from_spec(entry),
        ) == entry,
{
}

/// Errors of page storage. Errors that come from outside libraries carry
/// their message, or the outside error itself where it is a plain value.
#[derive(Debug)]
pub enum StorageError {
    /// I/O error.
    Io(String),
    /// XML error.
    XMLError(String),
    /// XML serialization error.
    SerializeError(String),
    /// XML deserialization error.
    DeserializeError(String),
    /// URL parsing error.
    UrlParse(url::ParseError),
    /// The URL has no host to store it under.
    InvalidUrl(String),
}

/// What `char::is_alphanumeric` reports for `c` (Unicode `Alphabetic` or
/// `Numeric`).
pub uninterp spec fn char_alphanumeric(c: char) -> bool;

/// ASCII letters and digits.
pub open spec fn ascii_alphanumeric(c: char) -> bool {
    ('a' <= c && c <= 'z') || ('A' <= c && c <= 'Z') || ('0' <= c && c <= '9')
}

/// Calls `char::is_alphanumeric`. Its documentation defines it as
/// `is_alphabetic() || is_numeric()`; among ASCII characters those are the
/// letters and the digits, which the contract states. Of other characters
/// it states only that the result is `char_alphanumeric(c)`.
#[verifier::external_body]
fn is_alphanumeric(c: char) -> (b: bool)
    ensures
        b == char_alphanumeric(c),
        (c as u32) < 128 ==> (b <==> ascii_alphanumeric(c)),
{
    c.is_alphanumeric()
}

/// A character of a URL path as it appears in a file name: letters,
/// digits and `/` are kept, anything else becomes `_`.
pub open spec fn safe_path_char(c: char) -> char {
    let keep = if (c as u32) < 128 { ascii_alphanumeric(c) } else { char_alphanumeric(c) };
    if keep || c == '/' {
        c
    } else {
        '_'
    }
}

/// `/` becomes `_`.
pub open spec fn slash_to_underscore(c: char) -> char {
    if c == '/' {
        '_'
    } else {
        c
    }
}

/// The file a page with URL path `path` is stored in: `index.xml` for the
/// root, else the path made safe, stripped of outer slashes, with inner
/// slashes turned to underscores, and `.xml` appended.
pub open spec fn storage_file_name(path: Seq<char>) -> Seq<char> {
    if path.len() == 0 || path == "/"@ {
        "index.xml"@
    } else {
        trim_char_seq(path.map_values(|c: char| safe_path_char(c)), '/').map_values(
            |c: char| slash_to_underscore(c),
        ) + ".xml"@
    }
}

/// `base` joined with `part` as `PathBuf::join` does on Unix: an absolute
/// `part` replaces `base`; otherwise a separator is put between them unless
/// `base` is empty or already ends with one.
pub open spec fn path_join(base: Seq<char>, part: Seq<char>) -> Seq<char> {
    if part.len() > 0 && part[0] == '/' {
        part
    } else if base.len() == 0 {
        part
    } else if base.last() == '/' {
        base + part
    } else {
        base + seq!['/'] + part
    }
}

/// Joins two paths (see `path_join`).
pub fn join_path(base: &str, part: &str) -> (r: String)
    ensures
        r@ == path_join(base@, part@),
{
    let b = chars_of(base);
    let p = chars_of(part);
    let mut r = String::new();
    if p.len() > 0 && p[0] == '/' {
        r.append(part);
    } else if b.len() == 0 {
        r.append(part);
    } else if b[b.len() - 1] == '/' {
        r.append(base);
        r.append(part);
    } else {
        r.append(base);
        push_char(&mut r, '/');
        r.append(part);
    }
    r
}

/// The file name for a URL path (see `storage_file_name`).
pub fn file_name_for_path(path: &str) -> (r: String)
    ensures
        r@ == storage_file_name(path@),
{
    let cs = chars_of(path);
    proof {
        reveal_strlit("/");
    }
    if cs.len() == 0 || (cs.len() == 1 && cs[0] == '/') {
        proof {
            if cs.len() == 1 && cs[0] == '/' {
                assert(path@ =~= "/"@);
            }
        }
        return String::from_str("index.xml");
    }
    assert(path@ != "/"@) by {
        if path@ == "/"@ {
            assert(path@.len() == 1 && path@[0] == '/');
        }
    }
    let mut safe: Vec<char> = Vec::new();
    let mut i: usize = 0;
    while i < cs.len()
        invariant
            i <= cs@.len(),
            cs@ == path@,
            safe@ == cs@.take(i as int).map_values(|c: char| safe_path_char(c)),
        decreases cs@.len() - i,
    {
        let c = cs[i];
        let d = if is_alphanumeric(c) || c == '/' { c } else { '_' };
        safe.push(d);
        assert(cs@.take(i + 1).map_values(|c: char| safe_path_char(c)) =~= cs@.take(i as int).map_values(
            |c: char| safe_path_char(c),
        ).push(safe_path_char(c)));
        i += 1;
    }
    assert(cs@.take(cs@.len() as int) =~= cs@);
    let (lo, hi) = trim_char_bounds(&safe, '/');
    let ghost trimmed = safe@.subrange(lo as int, hi as int);
    let mut r = String::new();
    let mut k = lo;
    while k < hi
        invariant
            lo <= k <= hi <= safe@.len(),
            trimmed == safe@.subrange(lo as int, hi as int),
            r@ == trimmed.take(k - lo).map_values(|c: char| slash_to_underscore(c)),
        decreases hi - k,
    {
        let c = safe[k];
        push_char(&mut r, if c == '/' { '_' } else { c });
        assert(trimmed.take(k + 1 - lo) =~= trimmed.take(k - lo).push(c));
        assert(trimmed.take(k + 1 - lo).map_values(|c: char| slash_to_underscore(c)) =~= trimmed.take(
            k - lo,
        ).map_values(|c: char| slash_to_underscore(c)).push(slash_to_underscore(c)));
        k += 1;
    }
    assert(trimmed.take(hi - lo) =~= trimmed);
    r.append(".xml");
    r
}

/// The directory holding the pages of `domain`, under `base`.
pub open spec fn domain_dir(base: Seq<char>, domain: Seq<char>) -> Seq<char> {
    path_join(base, domain)
}

/// Stores pages under a base directory.
#[derive(Debug, Clone)]
pub struct Storage {
    config: StorageConfig,
}

impl Default for Storage {
    fn default() -> (s: Self)
        ensures
            s.base_path() == ".hal/crawler"@,
    {
        Storage::new()
    }
}

/// Whether `r` is what extracting the domain of `url` gives: its host, a
/// parse error when it does not parse, `InvalidUrl(url)` when it has no
/// host.
pub open spec fn domain_result(url: Seq<char>, r: Result<String, StorageError>) -> bool {
    match r {
        Ok(d) => parsed_url(url) matches Some(u) && u.host == Some(d@),
        Err(StorageError::UrlParse(_)) => parsed_url(url) is None,
        Err(StorageError::InvalidUrl(s)) => parsed_url(url) matches Some(u) && u.host is None && s@ == url,
        Err(_) => false,
    }
}

/// Whether `r` is where a page with URL `url` is stored under `base`:
/// `<base>/<host>/<file name of the path>`, with the errors of
/// `domain_result`.
pub open spec fn storage_path_result(base: Seq<char>, url: Seq<char>, r: Result<String, StorageError>) -> bool {
    match r {
        Ok(p) => parsed_url(url) matches Some(u) && u.host matches Some(h) && p@ == path_join(
            path_join(base, h),
            storage_file_name(u.path),
        ),
        Err(StorageError::UrlParse(_)) => parsed_url(url) is None,
        Err(StorageError::InvalidUrl(s)) => parsed_url(url) matches Some(u) && u.host is None && s@ == url,
        Err(_) => false,
    }
}

impl Storage {
    /// The base directory.
    pub closed spec fn base_path(&self) -> Seq<char> {
        self.config.base_path@
    }

    /// A storage under `.hal/crawler`.
    pub fn new() -> (s: Self)
        ensures
            s.base_path() == ".hal/crawler"@,
    {
        Storage { config: StorageConfig::default() }
    }

    /// A storage with the given configuration.
    pub fn with_config(config: StorageConfig) -> (s: Self)
        ensures
            s.base_path() == config.base_path@,
    {
        Storage { config }
    }

    /// The configuration.
    pub fn config(&self) -> (c: &StorageConfig)
        ensures
            c.base_path@ == self.base_path(),
    {
        &self.config
    }

    /// The host of `url`, under which its pages are stored.
    pub fn extract_domain(&self, url: &str) -> (r: Result<String, StorageError>)
        ensures
            domain_result(url@, r),
    {
        match parse_url(url) {
            Ok(parts) => match parts.host {
                Some(h) => Ok(h),
                None => Err(StorageError::InvalidUrl(String::from_str(url))),
            },
            Err(e) => Err(StorageError::UrlParse(e)),
        }
    }

    /// The file a page with URL `url` is stored in.
    pub fn get_storage_path(&self, url: &str) -> (r: Result<String, StorageError>)
        ensures
            storage_path_result(self.base_path(), url@, r),
    {
        let domain = match self.extract_domain(url) {
            Ok(d) => d,
            Err(e) => return Err(e),
        };
        let parts = match parse_url(url) {
            Ok(p) => p,
            Err(e) => return Err(StorageError::UrlParse(e)),
        };
        let file_name = file_name_for_path(parts.path.as_str());
        let dir = join_path(self.config.base_path.as_str(), domain.as_str());
        Ok(join_path(dir.as_str(), file_name.as_str()))
    }

    /// The directory of the pages of `domain`.
    pub fn domain_path(&self, domain: &str) -> (r: String)
        ensures
            r@ == domain_dir(self.base_path(), domain@),
    {
        join_path(self.config.base_path.as_str(), domain)
    }
}

/// The host of `url`, with the default storage.
pub fn extract_domain(url: &str) -> (r: Result<String, StorageError>)
    ensures
        domain_result(url@, r),
{
    Storage::new().extract_domain(url)
}

/// Where a page with URL `url` is stored, with the default storage.
pub fn get_storage_path(url: &str) -> (r: Result<String, StorageError>)
    ensures
        storage_path_result(".hal/crawler"@, url@, r),
{
    Storage::new().get_storage_path(url)
}

/// The declaration that starts every stored file.
pub open spec fn xml_declaration() -> Seq<char> {
    "<?xml version=\"1.0\" encoding=\"UTF-8\"?>\n"@
}

/// The stored file for serialized pages `xml`: the XML declaration, then
/// the pages.
pub fn xml_document(xml: &str) -> (r: String)
    ensures
        r@ == xml_declaration() + xml@,
{
    let mut r = String::from_str("<?xml version=\"1.0\" encoding=\"UTF-8\"?>\n");
    r.append(xml);
    r
}

/// The message of a stored file that holds no page.
pub open spec fn no_pages_message() -> Seq<char> {
    "XML file contains no pages"@
}

/// The page of a stored file: the first of its pages (one page is stored
/// per file), or an I/O error when it holds none.
pub fn first_page(pages: Pages) -> (r: Result<PageEntry, StorageError>)
    ensures
        pages.pages@.len() > 0 ==> r == Ok::<PageEntry, StorageError>(pages.pages@[0]),
        pages.pages@.len() == 0 ==> (r matches Err(StorageError::Io(m)) && m@ == no_pages_message()),
{
    let mut v = pages.pages;
    if v.len() > 0 {
        Ok(v.remove(0))
    } else {
        Err(StorageError::Io(String::from_str("XML file contains no pages")))
    }
}

/// The index of the last `.` among the first `n` characters of `name`.
pub open spec fn last_dot(name: Seq<char>, n: int) -> Option<int>
    decreases n,
{
    if n <= 0 {
        None
    } else if name[n - 1] == '.' {
        Some(n - 1)
    } else {
        last_dot(name, n - 1)
    }
}

/// The extension of a file name, as `Path::extension` reads it: what
/// follows the last `.`, provided something precedes that dot.
pub open spec fn extension_of(name: Seq<char>) -> Option<Seq<char>> {
    match last_dot(name, name.len() as int) {
        Some(i) => if i > 0 {
            Some(name.skip(i + 1))
        } else {
            None
        },
        None => None,
    }
}

/// Whether a file in a domain directory holds pages: its extension is `xml`.
pub fn has_xml_extension(file_name: &str) -> (r: bool)
    ensures
        r == (extension_of(file_name@) == Some("xml"@)),
{
    let cs = chars_of(file_name);
    let n = cs.len();
    let mut j: usize = n;
    while j > 0 && cs[j - 1] != '.'
        invariant
            j <= n == cs@.len(),
            cs@ == file_name@,
            last_dot(cs@, n as int) == last_dot(cs@, j as int),
        decreases j,
    {
        j -= 1;
    }
    if j <= 1 {
        return false;
    }
    let rest = &cs;
    let ok = n - j == 3 && rest[j] == 'x' && rest[j + 1] == 'm' && rest[j + 2] == 'l';
    proof {
        reveal_strlit("xml");
        assert(last_dot(cs@, n as int) == Some(j - 1));
        let ext = cs@.skip(j as int);
        if ok {
            assert(ext =~= "xml"@);
        } else if ext == "xml"@ {
            assert(ext.len() == 3 && ext[0] == 'x' && ext[1] == 'm' && ext[2] == 'l');
        }
    }
    ok
}

} // verus!
