//! The decisions of the HTTP client of the Gemini API: where a request
//! goes, whether the client-side pacing lets it through, and what an
//! answer of the server leads to. The client that sends the requests, the
//! clock and the sleeping stand around these decisions.

use crate::error::{is_auth_error, is_other_error, Error};
use crate::gemini::types::{default_options, options_view, HttpOptions, OptionsView};
use crate::processor::chunking::opt_view;
use crate::urls::{parse_error_text, parse_url, parsed_url};
use std::collections::VecDeque;
use vstd::prelude::*;

verus! {

/// Timeout of one HTTP request, in seconds.
pub const DEFAULT_TIMEOUT_SECS: u64 = 120;

/// Length of the pacing window, in nanoseconds (one minute).
pub const WINDOW_NANOS: u64 = 60_000_000_000;

/// Longest wait before a retry, in seconds.
pub const MAX_RETRY_DELAY_SECS: u64 = 60;

/// What the client keeps of its configuration.
pub struct ClientSettings {
    pub base_url: Seq<char>,
    pub api_key: Option<Seq<char>>,
    pub project_id: Option<Seq<char>>,
    pub location: Option<Seq<char>>,
    pub options: OptionsView,
}

/// Endpoint of the Gemini Developer API.
pub open spec fn genai_base() -> Seq<char> {
    "https://generativelanguage.googleapis.com"@
}

/// Endpoint of Vertex AI in `location`.
pub open spec fn vertex_base(location: Seq<char>) -> Seq<char> {
    "https://"@ + location + "-aiplatform.googleapis.com"@
}

/// A client of the Gemini Developer API with key `key`.
pub open spec fn genai_settings(key: Seq<char>, options: OptionsView) -> ClientSettings {
    ClientSettings {
        base_url: genai_base(),
        api_key: Some(key),
        project_id: None,
        location: None,
        options,
    }
}

/// A client of Vertex AI for `project` in `location`.
pub open spec fn vertex_settings(project: Seq<char>, location: Seq<char>, options: OptionsView) -> ClientSettings {
    ClientSettings {
        base_url: vertex_base(location),
        api_key: None,
        project_id: Some(project),
        location: Some(location),
        options,
    }
}

/// The default options with client-side pacing at `rpm` requests a minute,
/// waiting for a free slot, and up to 5 retries of a rate-limited request
/// starting 2 s apart.
pub open spec fn paced_options(rpm: u32) -> OptionsView {
    OptionsView {
        enable_client_side_rate_limiting: true,
        requests_per_minute: rpm,
        wait_when_rate_limited: true,
        retry_on_rate_limit: true,
        max_retries: 5,
        default_retry_after_secs: 2,
        ..default_options()
    }
}

/// The configuration of a client of the Gemini API. The transport that
/// sends the requests is held by its user; this type decides.
#[derive(Debug, Clone)]
pub struct HttpClient {
    base_url: String,
    api_key: Option<String>,
    project_id: Option<String>,
    location: Option<String>,
    api_version: String,
    retry_on_rate_limit: bool,
    max_retries: u32,
    default_retry_after_secs: u64,
    enable_client_side_rate_limiting: bool,
    requests_per_minute: u32,
    wait_when_rate_limited: bool,
}

impl View for HttpClient {
    type V = ClientSettings;

    closed spec fn view(&self) -> ClientSettings {
        ClientSettings {
            base_url: self.base_url@,
            api_key: opt_view(self.api_key),
            project_id: opt_view(self.project_id),
            location: opt_view(self.location),
            options: OptionsView {
                api_version: self.api_version@,
                retry_on_rate_limit: self.retry_on_rate_limit,
                max_retries: self.max_retries,
                default_retry_after_secs: self.default_retry_after_secs,
                enable_client_side_rate_limiting: self.enable_client_side_rate_limiting,
                requests_per_minute: self.requests_per_minute,
                wait_when_rate_limited: self.wait_when_rate_limited,
            },
        }
    }
}

/// `{base}/{version}/{path}`.
pub open spec fn genai_url(c: ClientSettings, path: Seq<char>) -> Seq<char> {
    c.base_url + "/"@ + c.options.api_version + "/"@ + path
}

/// `{base}/{version}/projects/{project}/locations/{location}/{path}`.
pub open spec fn vertex_url(c: ClientSettings, project: Seq<char>, location: Seq<char>, path: Seq<char>) -> Seq<char> {
    c.base_url + "/"@ + c.options.api_version + "/projects/"@ + project + "/locations/"@
        + location + "/"@ + path
}

/// What building the URL `url` gives: the URL, or an `Error::Other` when
/// the URL parser rejects it.
pub open spec fn url_outcome(url: Seq<char>, r: Result<String, Error>) -> bool {
    match r {
        Ok(u) => u@ == url && parsed_url(url) is Some,
        Err(e) => parsed_url(url) is None && is_other_error(e, "Invalid URL: "@),
    }
}

/// Checks `url` with the URL parser.
fn checked_url(url: String) -> (r: Result<String, Error>)
    ensures
        url_outcome(url@, r),
{
    match parse_url(url.as_str()) {
        Ok(_) => Ok(url),
        Err(e) => {
            let mut m = String::from_str("Invalid URL: ");
            let text = parse_error_text(&e);
            m.append(text.as_str());
            assert(m@.take("Invalid URL: "@.len() as int) =~= "Invalid URL: "@);
            Err(Error::Other(m))
        },
    }
}

impl HttpClient {
    /// A client of the Gemini Developer API with the default options.
    pub fn with_api_key(api_key: String) -> (c: Self)
        ensures
            c@ == genai_settings(api_key@, default_options()),
    {
        Self::with_api_key_and_options(api_key, HttpOptions::default())
    }

    /// A client of the Gemini Developer API.
    pub fn with_api_key_and_options(api_key: String, options: HttpOptions) -> (c: Self)
        ensures
            c@ == genai_settings(api_key@, options_view(options)),
    {
        HttpClient {
            base_url: String::from_str("https://generativelanguage.googleapis.com"),
            api_key: Some(api_key),
            project_id: None,
            location: None,
            api_version: options.api_version,
            retry_on_rate_limit: options.retry_on_rate_limit,
            max_retries: options.max_retries,
            default_retry_after_secs: options.default_retry_after_secs,
            enable_client_side_rate_limiting: options.enable_client_side_rate_limiting,
            requests_per_minute: options.requests_per_minute,
            wait_when_rate_limited: options.wait_when_rate_limited,
        }
    }

    /// A client of Vertex AI with the default options.
    pub fn with_vertex_ai(project_id: String, location: String) -> (c: Self)
        ensures
            c@ == vertex_settings(project_id@, location@, default_options()),
    {
        Self::with_vertex_ai_and_options(project_id, location, HttpOptions::default())
    }

    /// A client of Vertex AI.
    pub fn with_vertex_ai_and_options(project_id: String, location: String, options: HttpOptions) -> (c: Self)
        ensures
            c@ == vertex_settings(project_id@, location@, options_view(options)),
    {
        let mut base_url = String::from_str("https://");
        base_url.append(location.as_str());
        base_url.append("-aiplatform.googleapis.com");
        HttpClient {
            base_url,
            api_key: None,
            project_id: Some(project_id),
            location: Some(location),
            api_version: options.api_version,
            retry_on_rate_limit: options.retry_on_rate_limit,
            max_retries: options.max_retries,
            default_retry_after_secs: options.default_retry_after_secs,
            enable_client_side_rate_limiting: options.enable_client_side_rate_limiting,
            requests_per_minute: options.requests_per_minute,
            wait_when_rate_limited: options.wait_when_rate_limited,
        }
    }

    /// A client of the Gemini Developer API with this client's key and the
    /// default options.
    pub fn reset_default_options(&self) -> (c: Self)
        requires
            self@.api_key is Some,
        ensures
            c@ == genai_settings(self@.api_key->0, default_options()),
    {
        let key = self.api_key.clone().unwrap();
        Self::with_api_key_and_options(key, HttpOptions::default())
    }

    /// A client of the Gemini Developer API that paces itself at 28
    /// requests a minute, below the API's limit of 30.
    pub fn with_gemini_rate_limits(api_key: String) -> (c: Self)
        ensures
            c@ == genai_settings(api_key@, paced_options(28)),
    {
        let mut options = HttpOptions::default();
        options.enable_client_side_rate_limiting = true;
        options.requests_per_minute = 28;
        options.wait_when_rate_limited = true;
        options.retry_on_rate_limit = true;
        options.max_retries = 5;
        options.default_retry_after_secs = 2;
        Self::with_api_key_and_options(api_key, options)
    }

    /// A client of Vertex AI that paces itself at 25 requests a minute.
    pub fn with_vertex_ai_rate_limits(project_id: String, location: String) -> (c: Self)
        ensures
            c@ == vertex_settings(project_id@, location@, paced_options(25)),
    {
        let mut options = HttpOptions::default();
        options.enable_client_side_rate_limiting = true;
        options.requests_per_minute = 25;
        options.wait_when_rate_limited = true;
        options.retry_on_rate_limit = true;
        options.max_retries = 5;
        options.default_retry_after_secs = 2;
        Self::with_vertex_ai_and_options(project_id, location, options)
    }

    /// The API key, sent as the `key` query parameter.
    pub fn api_key(&self) -> (k: Option<String>)
        ensures
            opt_view(k) == self@.api_key,
    {
        self.api_key.clone()
    }

    /// The pacing limit: requests allowed in one window.
    pub fn requests_per_minute(&self) -> (n: u32)
        ensures
            n == self@.options.requests_per_minute,
    {
        self.requests_per_minute
    }

    /// The URL of `path` on the Gemini Developer API.
    pub fn build_genai_url(&self, path: &str) -> (r: Result<String, Error>)
        ensures
            url_outcome(genai_url(self@, path@), r),
    {
        let mut url = self.base_url.clone();
        url.append("/");
        url.append(self.api_version.as_str());
        url.append("/");
        url.append(path);
        checked_url(url)
    }

    /// The URL of `path` on Vertex AI; an authentication error when the
    /// client has no project or location.
    pub fn build_vertex_url(&self, path: &str) -> (r: Result<String, Error>)
        ensures
            match (self@.project_id, self@.location) {
                (Some(p), Some(l)) => url_outcome(vertex_url(self@, p, l, path@), r),
                _ => is_auth_error(r, "Missing project_id or location for Vertex AI"@),
            },
    {
        match (&self.project_id, &self.location) {
            (Some(project), Some(location)) => {
                let mut url = self.base_url.clone();
                url.append("/");
                url.append(self.api_version.as_str());
                url.append("/projects/");
                url.append(project.as_str());
                url.append("/locations/");
                url.append(location.as_str());
                url.append("/");
                url.append(path);
                checked_url(url)
            },
            _ => Err(Error::Auth(String::from_str("Missing project_id or location for Vertex AI"))),
        }
    }

    /// The URL of `path` on Vertex AI when `is_vertex`, else on the Gemini
    /// Developer API.
    pub fn request_url(&self, path: &str, is_vertex: bool) -> (r: Result<String, Error>)
        ensures
            !is_vertex ==> url_outcome(genai_url(self@, path@), r),
            is_vertex ==> match (self@.project_id, self@.location) {
                (Some(p), Some(l)) => url_outcome(vertex_url(self@, p, l, path@), r),
                _ => is_auth_error(r, "Missing project_id or location for Vertex AI"@),
            },
    {
        if is_vertex {
            self.build_vertex_url(path)
        } else {
            self.build_genai_url(path)
        }
    }
}

/// How long ago `t` was at `now`, in nanoseconds; nothing for a time not
/// yet reached.
pub open spec fn age(now: u64, t: u64) -> int {
    if now >= t { now - t } else { 0 }
}

/// `t` has left the pacing window at `now`.
pub open spec fn expired(now: u64, t: u64) -> bool {
    age(now, t) > WINDOW_NANOS
}

/// `s` without the times at its front that have left the window at `now`.
pub open spec fn evicted(s: Seq<u64>, now: u64) -> Seq<u64>
    decreases s.len(),
{
    if s.len() > 0 && expired(now, s[0]) {
        evicted(s.drop_first(), now)
    } else {
        s
    }
}

/// The times at which the client sent its recent requests, oldest first,
/// in nanoseconds from a fixed origin.
#[derive(Debug, Clone)]
pub struct RequestWindow {
    stamps: VecDeque<u64>,
}

impl View for RequestWindow {
    type V = Seq<u64>;

    closed spec fn view(&self) -> Seq<u64> {
        self.stamps@
    }
}

/// What the pacing does with a request.
#[derive(Debug, Clone, Copy, PartialEq, Eq)]
pub enum Admission {
    /// Pacing is off: the request goes out.
    Unlimited,
    /// The request goes out; `in_window` requests, this one included, are
    /// now in the window.
    Admitted { in_window: usize },
    /// The window is full: ask again after `nanos` nanoseconds, when its
    /// oldest request leaves it.
    WaitFor { nanos: u64 },
}

/// What pacing decides for a window holding `s` at `now`, and the window
/// after it, when pacing is on with `rpm` requests a minute.
pub open spec fn admission(s: Seq<u64>, now: u64, rpm: u32, wait: bool) -> (Result<Admission, Error>, Seq<u64>) {
    let kept = evicted(s, now);
    if kept.len() >= rpm && wait && kept.len() > 0 {
        (Ok(Admission::WaitFor { nanos: (WINDOW_NANOS - age(now, kept[0])) as u64 }), kept)
    } else if kept.len() >= rpm && !wait {
        (Err(Error::RateLimit { retry_after_secs: 60 }), kept)
    } else {
        (Ok(Admission::Admitted { in_window: (kept.len() + 1) as usize }), kept.push(now))
    }
}

proof fn lemma_evicted_suffix(s: Seq<u64>, now: u64)
    ensures
        evicted(s, now).len() <= s.len(),
        evicted(s, now) == s.skip(s.len() - evicted(s, now).len()),
        evicted(s, now).len() > 0 ==> !expired(now, evicted(s, now)[0]),
    decreases s.len(),
{
    if s.len() > 0 && expired(now, s[0]) {
        lemma_evicted_suffix(s.drop_first(), now);
        let e = evicted(s, now);
        assert(s.drop_first().skip(s.len() - 1 - e.len()) =~= s.skip(s.len() - e.len()));
    } else {
        assert(s.skip(0) =~= s);
    }
}

impl RequestWindow {
    /// An empty window.
    pub fn new() -> (w: Self)
        ensures
            w@ == Seq::<u64>::empty(),
    {
        RequestWindow { stamps: VecDeque::new() }
    }

    /// The number of requests in the window.
    pub fn len(&self) -> (n: usize)
        ensures
            n == self@.len(),
    {
        self.stamps.len()
    }

    /// Drops the requests at the front that have left the window at `now`.
    fn evict(&mut self, now: u64)
        ensures
            final(self)@ == evicted(old(self)@, now),
    {
        while self.stamps.len() > 0
            invariant
                evicted(self@, now) == evicted(old(self)@, now),
            ensures
                self@ == evicted(old(self)@, now),
            decreases self.stamps@.len(),
        {
            let oldest = self.stamps[0];
            let age: u64 = if now >= oldest { now - oldest } else { 0 };
            if age > WINDOW_NANOS {
                let ghost before = self.stamps@;
                self.stamps.pop_front();
                assert(self.stamps@ =~= before.drop_first());
            } else {
                assert(!expired(now, self@[0]));
                break;
            }
        }
    }

    /// Notes a 429 answer at `now`: three requests, at `now` and 5 and 10
    /// seconds before it, join the window, so that the pacing slows down.
    pub fn note_rate_limited(&mut self, now: u64)
        ensures
            final(self)@ == old(self)@ + seq![
                now,
                now.saturating_sub(5_000_000_000),
                now.saturating_sub(10_000_000_000),
            ],
    {
        self.stamps.push_back(now);
        self.stamps.push_back(now.saturating_sub(5_000_000_000));
        self.stamps.push_back(now.saturating_sub(10_000_000_000));
    }
}

/// Pacing lets a request through only while fewer than `rpm` requests are
/// in the window, so that with `rpm` above zero the window never holds more
/// than `rpm` requests after an admission; a request that is refused or
/// told to wait leaves nothing in the window, which only loses its expired
/// front.
pub proof fn lemma_admission_bounded(s: Seq<u64>, now: u64, rpm: u32, wait: bool)
    requires
        rpm > 0,
    ensures
        admission(s, now, rpm, wait).0 is Ok && admission(s, now, rpm, wait).0->Ok_0 is Admitted
            ==> admission(s, now, rpm, wait).1.len() <= rpm,
        !(admission(s, now, rpm, wait).0 is Ok && admission(s, now, rpm, wait).0->Ok_0 is Admitted)
            ==> admission(s, now, rpm, wait).1 == evicted(s, now)
                && evicted(s, now).len() >= rpm,
        admission(s, now, rpm, wait).1.len() <= s.len() + 1,
{
    lemma_evicted_suffix(s, now);
}

/// Where a rate-limited request stands, or what an answer amounts to.
#[derive(Debug, Clone, PartialEq, Eq)]
pub enum ResponseStep {
    /// A successful answer whose body is to be parsed.
    Deliver(String),
    /// Send the request again, after a delay derived from
    /// `base_delay_secs`; it has been rate limited `attempts` times.
    Retry { attempts: u32, base_delay_secs: u64 },
    /// The request failed with this error.
    Fail(Error),
}

/// `2^n`.
pub open spec fn two_pow(n: nat) -> nat
    decreases n,
{
    if n == 0 { 1 } else { 2 * two_pow((n - 1) as nat) }
}

/// `x * 2^n`, or `u64::MAX` when that does not fit.
pub open spec fn saturating_shift(x: u64, n: nat) -> u64 {
    if x * two_pow(n) > u64::MAX { u64::MAX } else { (x * two_pow(n)) as u64 }
}

/// A status in `200..=299`.
pub open spec fn is_success(status: u16) -> bool {
    200 <= status <= 299
}

/// What an answer with `status` and `body` leads to, for a request that
/// was rate limited `attempts` times before, where a 429 answer names the
/// delay `retry_after` (in seconds) or none.
pub open spec fn response_step(
    c: ClientSettings,
    status: u16,
    body: Seq<char>,
    retry_after: Option<u64>,
    attempts: u32,
    r: ResponseStep,
) -> bool {
    if status == 429 {
        let n = attempts + 1;
        let delay = match retry_after {
            Some(d) => d,
            None => c.options.default_retry_after_secs,
        };
        if c.options.retry_on_rate_limit && n <= c.options.max_retries {
            r == ResponseStep::Retry {
                attempts: n as u32,
                base_delay_secs: saturating_shift(delay, (n - 1) as nat),
            }
        } else {
            r == ResponseStep::Fail(Error::RateLimit { retry_after_secs: delay })
        }
    } else if is_success(status) {
        r matches ResponseStep::Deliver(b) && b@ == body
    } else if status == 401 {
        r matches ResponseStep::Fail(Error::Auth(m)) && m@ == "Invalid API key or credentials"@
    } else if status == 501 {
        r matches ResponseStep::Fail(Error::Unsupported(m)) && m@ == "Operation not supported: "@ + body
    } else {
        r matches ResponseStep::Fail(Error::Api { status_code, message })
            && status_code == status && message@ == body
    }
}

/// A rate-limited request is retried only while its count of 429 answers
/// stays within `max_retries`, and each retry counts one more; so a request
/// is sent at most `max_retries + 1` times. Only a 429 answer leads to a
/// retry.
pub proof fn lemma_retries_bounded(
    c: ClientSettings,
    status: u16,
    body: Seq<char>,
    retry_after: Option<u64>,
    attempts: u32,
    r: ResponseStep,
)
    requires
        response_step(c, status, body, retry_after, attempts, r),
    ensures
        r is Retry ==> status == 429 && r->attempts == attempts + 1 && r->attempts <= c.options.max_retries,
        r is Retry ==> c.options.retry_on_rate_limit,
{
}

proof fn lemma_two_pow_step(x: u64, n: nat)
    ensures
        x * two_pow(n + 1) == 2 * (x * two_pow(n)),
        two_pow(n) >= 1,
    decreases n,
{
    if n > 0 {
        lemma_two_pow_step(x, (n - 1) as nat);
    }
    assert(x * (2 * two_pow(n)) == 2 * (x * two_pow(n))) by (nonlinear_arith);
}

/// `x * 2^n`, saturating.
fn shifted_delay(x: u64, n: u32) -> (d: u64)
    ensures
        d == saturating_shift(x, n as nat),
{
    let mut d = x;
    let mut i: u32 = 0;
    proof {
        assert(two_pow(0) == 1);
        assert(x * two_pow(0) == x);
    }
    while i < n
        invariant
            i <= n,
            d == saturating_shift(x, i as nat),
        decreases n - i,
    {
        proof {
            lemma_two_pow_step(x, i as nat);
        }
        if d > u64::MAX / 2 {
            d = u64::MAX;
        } else {
            d = d * 2;
        }
        i = i + 1;
    }
    d
}

impl HttpClient {
    /// The pacing decision for a request at `now` (nanoseconds from the
    /// window's origin): with pacing off every request goes out; with it
    /// on, see `admission`. A refusal is `Error::RateLimit` with a delay of
    /// one window.
    pub fn check_rate_limit(&self, window: &mut RequestWindow, now: u64) -> (r: Result<Admission, Error>)
        ensures
            !self@.options.enable_client_side_rate_limiting ==> r == Ok::<Admission, Error>(Admission::Unlimited)
                && final(window)@ == old(window)@,
            self@.options.enable_client_side_rate_limiting ==> (r, final(window)@) == admission(
                old(window)@,
                now,
                self@.options.requests_per_minute,
                self@.options.wait_when_rate_limited,
            ),
    {
        if !self.enable_client_side_rate_limiting {
            return Ok(Admission::Unlimited);
        }
        window.evict(now);
        let n = window.stamps.len();
        if n as u64 >= self.requests_per_minute as u64 {
            if self.wait_when_rate_limited {
                if n > 0 {
                    let oldest = window.stamps[0];
                    proof {
                        lemma_evicted_suffix(old(window)@, now);
                    }
                    let age: u64 = if now >= oldest { now - oldest } else { 0 };
                    return Ok(Admission::WaitFor { nanos: WINDOW_NANOS - age });
                }
            } else {
                return Err(Error::RateLimit { retry_after_secs: 60 });
            }
        }
        window.stamps.push_back(now);
        Ok(Admission::Admitted { in_window: window.stamps.len() })
    }

    /// What an answer with `status` and `body` leads to (see
    /// `response_step`); `retry_after` is the delay that a 429 answer
    /// named, in seconds, and `attempts` the number of 429 answers to the
    /// same request before this one.
    pub fn on_response(&self, status: u16, body: String, retry_after: Option<u64>, attempts: u32) -> (r: ResponseStep)
        requires
            attempts < u32::MAX,
            status == 429 && self@.options.retry_on_rate_limit && attempts < self@.options.max_retries
                ==> attempts < 64,
        ensures
            response_step(self@, status, body@, retry_after, attempts, r),
    {
        if status == 429 {
            let n = attempts + 1;
            let delay = match retry_after {
                Some(d) => d,
                None => self.default_retry_after_secs,
            };
            if self.retry_on_rate_limit && n <= self.max_retries {
                ResponseStep::Retry { attempts: n, base_delay_secs: shifted_delay(delay, n - 1) }
            } else {
                ResponseStep::Fail(Error::RateLimit { retry_after_secs: delay })
            }
        } else if 200 <= status && status <= 299 {
            ResponseStep::Deliver(body)
        } else if status == 401 {
            ResponseStep::Fail(Error::Auth(String::from_str("Invalid API key or credentials")))
        } else if status == 501 {
            let mut m = String::from_str("Operation not supported: ");
            m.append(body.as_str());
            ResponseStep::Fail(Error::Unsupported(m))
        } else {
            ResponseStep::Fail(Error::Api { status_code: status, message: body })
        }
    }
}

/// A retry delay, in seconds, capped at `MAX_RETRY_DELAY_SECS`.
pub fn capped_retry_delay(delay_secs: u64) -> (d: u64)
    ensures
        d == if delay_secs < MAX_RETRY_DELAY_SECS { delay_secs } else { MAX_RETRY_DELAY_SECS },
{
    if delay_secs < MAX_RETRY_DELAY_SECS {
        delay_secs
    } else {
        MAX_RETRY_DELAY_SECS
    }
}

} // verus!
