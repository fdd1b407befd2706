//! The Datadog HTTP client: its configuration, construction, and the retry
//! policy that the request loop follows.
//!
//! Sending requests is asynchronous I/O and happens outside this crate; the
//! decisions of the retry loop are made by [`on_send_error`] and
//! [`on_response`], which say after each attempt whether to decode, wait and
//! retry, or give up with an [`ApiError`].

use core::time::Duration;
use reqwest::header::{HeaderMap, HeaderName, HeaderValue};
use reqwest::Client as HttpClient;
use url::Url;
use vstd::prelude::*;
use crate::error::ApiError;
use crate::text::{chars_of, parse_u64, parse_u64_chars, push_str, string_from_chars};

verus! {

#[verifier::external_type_specification]
#[verifier::external_body]
pub struct ExHttpClient(HttpClient);

#[verifier::external_type_specification]
#[verifier::external_body]
pub struct ExUrl(Url);

/// Datadog site used when none is configured.
pub const DEFAULT_SITE: &'static str = "datadoghq.com";

/// Per-request timeout used when none is configured, in seconds.
pub const DEFAULT_TIMEOUT_SECS: u64 = 30;

/// Attempts made for one request before giving up.
pub const MAX_RETRIES: u32 = 3;

/// The `User-Agent` sent by default.
pub const USER_AGENT: &'static str = "dd-cli/0.1.0";

// ---- Durations ----------------------------------------------------------------

/// `Duration::from_secs(secs)`.
pub uninterp spec fn secs_to_duration(secs: nat) -> Duration;

/// `Duration::from_millis(ms)`.
pub uninterp spec fn millis_to_duration(ms: nat) -> Duration;

/// `Duration::from_secs`: the duration of `secs` whole seconds.
#[verifier::external_body]
pub(crate) fn duration_from_secs(secs: u64) -> (d: Duration)
    ensures
        d == secs_to_duration(secs as nat),
{
    Duration::from_secs(secs)
}

/// `Duration::from_millis`: the duration of `ms` milliseconds.
#[verifier::external_body]
pub(crate) fn duration_from_millis(ms: u64) -> (d: Duration)
    ensures
        d == millis_to_duration(ms as nat),
{
    Duration::from_millis(ms)
}

// ---- Builder ------------------------------------------------------------------

/// Settings for a [`Client`].
pub struct ClientBuilder {
    api_key: String,
    app_key: String,
    site: String,
    user_agent: String,
    timeout: Duration,
}

/// The settings held by a [`ClientBuilder`].
pub struct BuilderView {
    pub api_key: Seq<char>,
    pub app_key: Seq<char>,
    pub site: Seq<char>,
    pub user_agent: Seq<char>,
    pub timeout: Duration,
}

impl View for ClientBuilder {
    type V = BuilderView;

    closed spec fn view(&self) -> BuilderView {
        BuilderView {
            api_key: self.api_key@,
            app_key: self.app_key@,
            site: self.site@,
            user_agent: self.user_agent@,
            timeout: self.timeout,
        }
    }
}

impl ClientBuilder {
    /// A builder with the given keys, the default site, user agent and
    /// timeout.
    pub fn new(api_key: &str, app_key: &str) -> (r: Self)
        ensures
            r@.api_key == api_key@,
            r@.app_key == app_key@,
            r@.site == DEFAULT_SITE@,
            r@.user_agent == USER_AGENT@,
            r@.timeout == secs_to_duration(DEFAULT_TIMEOUT_SECS as nat),
    {
        ClientBuilder {
            api_key: api_key.to_owned(),
            app_key: app_key.to_owned(),
            site: DEFAULT_SITE.to_owned(),
            user_agent: USER_AGENT.to_owned(),
            timeout: duration_from_secs(DEFAULT_TIMEOUT_SECS),
        }
    }

    /// Sets the Datadog site.
    pub fn site(self, site: &str) -> (r: Self)
        ensures
            r@ == (BuilderView { site: site@, ..self@ }),
    {
        ClientBuilder { site: site.to_owned(), ..self }
    }

    /// Sets the `User-Agent`.
    pub fn user_agent(self, ua: &str) -> (r: Self)
        ensures
            r@ == (BuilderView { user_agent: ua@, ..self@ }),
    {
        ClientBuilder { user_agent: ua.to_owned(), ..self }
    }

    /// Sets the per-request timeout.
    pub fn timeout(self, timeout: Duration) -> (r: Self)
        ensures
            r@ == (BuilderView { timeout: timeout, ..self@ }),
    {
        ClientBuilder { timeout, ..self }
    }

    /// Builds the client: both keys must be valid header values, the HTTP
    /// client must come up with the two key headers, the user agent and the
    /// timeout, and `https://api.<site>/` must parse as a URL.
    pub fn build(self) -> (r: Result<Client, ApiError>)
        ensures
            !header_text_ok(self@.api_key) ==> (r matches Err(ApiError::Upstream { status, body })
                && status == 0 && body@ == "invalid API key header"@),
            header_text_ok(self@.api_key) && !header_text_ok(self@.app_key) ==> (r matches Err(
                ApiError::Upstream { status, body },
            ) && status == 0 && body@ == "invalid App key header"@),
            r matches Ok(c) ==> {
                &&& header_text_ok(self@.api_key) && header_text_ok(self@.app_key)
                &&& url_parses(base_url_text(self@.site))
                &&& c.base() == parsed_url(base_url_text(self@.site))
                &&& c.default_headers() == key_headers(self@.api_key, self@.app_key)
                &&& c.agent() == self@.user_agent
                &&& c.request_timeout() == self@.timeout
            },
            header_text_ok(self@.api_key) && header_text_ok(self@.app_key) ==> (r matches Err(e)
                ==> (e is Network || (e is Url && !url_parses(base_url_text(self@.site))))),
    {
        if !header_value_ok(self.api_key.as_str()) {
            return Err(ApiError::Upstream { status: 0, body: "invalid API key header".to_owned() });
        }
        if !header_value_ok(self.app_key.as_str()) {
            return Err(ApiError::Upstream { status: 0, body: "invalid App key header".to_owned() });
        }
        let headers = default_header_pairs(self.api_key.as_str(), self.app_key.as_str());
        proof {
            lemma_key_header_names();
            let pv = pair_views(headers@);
            let kh = key_headers(self.api_key@, self.app_key@);
            assert(pv == kh);
            assert(kh.len() == 2);
            assert(headers@.len() == 2);
            assert(pv[0] == (headers@[0].0@, headers@[0].1@));
            assert(pv[1] == (headers@[1].0@, headers@[1].1@));
            assert forall|i: int| 0 <= i < headers@.len() implies header_name_ok(
                #[trigger] headers@[i].0@,
            ) && header_text_ok(headers@[i].1@) by {
                if i == 0 {
                    assert(pv[0] == kh[0]);
                } else {
                    assert(pv[1] == kh[1]);
                }
            }
        }
        let http = match http_client(&headers, self.user_agent.as_str(), self.timeout) {
            Ok(h) => h,
            Err(e) => {
                return Err(ApiError::Network(e));
            },
        };
        let text = base_url_string(self.site.as_str());
        match parse_url(text.as_str()) {
            Ok(base) => Ok(
                Client { http, base, headers, user_agent: self.user_agent, timeout: self.timeout },
            ),
            Err(e) => Err(ApiError::Url(e)),
        }
    }
}

/// The views of a list of header pairs.
pub open spec fn pair_views(ps: Seq<(String, String)>) -> Seq<(Seq<char>, Seq<char>)> {
    Seq::new(ps.len(), |i: int| (ps[i].0@, ps[i].1@))
}

/// The default headers of every request: the API key under `dd-api-key`,
/// then the application key under `dd-application-key`.
pub open spec fn key_headers(api_key: Seq<char>, app_key: Seq<char>) -> Seq<(Seq<char>, Seq<char>)> {
    seq![("dd-api-key"@, api_key), ("dd-application-key"@, app_key)]
}

/// The default headers for the two keys.
pub fn default_header_pairs(api_key: &str, app_key: &str) -> (r: Vec<(String, String)>)
    ensures
        pair_views(r@) == key_headers(api_key@, app_key@),
{
    let mut r: Vec<(String, String)> = Vec::new();
    r.push(("dd-api-key".to_owned(), api_key.to_owned()));
    r.push(("dd-application-key".to_owned(), app_key.to_owned()));
    assert(pair_views(r@) =~= key_headers(api_key@, app_key@));
    r
}

/// A header name the `http` crate takes as written: 1 to 64 characters, each
/// a lower-case ASCII letter, a digit or `-`.
pub open spec fn header_name_ok(s: Seq<char>) -> bool {
    &&& 1 <= s.len() <= 64
    &&& forall|i: int|
        0 <= i < s.len() ==> (('a' <= #[trigger] s[i] && s[i] <= 'z') || ('0' <= s[i] && s[i] <= '9')
            || s[i] == '-')
}

proof fn lemma_key_header_names()
    ensures
        header_name_ok("dd-api-key"@),
        header_name_ok("dd-application-key"@),
{
    reveal_strlit("dd-api-key");
    reveal_strlit("dd-application-key");
    let a = "dd-api-key"@;
    let b = "dd-application-key"@;
    assert forall|i: int| 0 <= i < a.len() implies (('a' <= #[trigger] a[i] && a[i] <= 'z') || ('0'
        <= a[i] && a[i] <= '9') || a[i] == '-') by {
        assert(a =~= seq!['d', 'd', '-', 'a', 'p', 'i', '-', 'k', 'e', 'y']);
    }
    assert forall|i: int| 0 <= i < b.len() implies (('a' <= #[trigger] b[i] && b[i] <= 'z') || ('0'
        <= b[i] && b[i] <= '9') || b[i] == '-') by {
        assert(b =~= seq![
            'd', 'd', '-', 'a', 'p', 'p', 'l', 'i', 'c', 'a', 't', 'i', 'o', 'n', '-', 'k', 'e', 'y'
        ]);
    }
}

/// The text of the API base URL for a site: `https://api.<site>/`.
pub open spec fn base_url_text(site: Seq<char>) -> Seq<char> {
    "https://api."@ + site + "/"@
}

/// Builds `https://api.<site>/`.
pub fn base_url_string(site: &str) -> (r: String)
    ensures
        r@ == base_url_text(site@),
{
    let mut v: Vec<char> = Vec::new();
    push_str(&mut v, "https://api.");
    push_str(&mut v, site);
    push_str(&mut v, "/");
    string_from_chars(v.as_slice())
}

// ---- Outside calls made while building ---------------------------------------------

/// The bytes of `s` are all allowed in an HTTP header value: no control
/// character but tab, and no DEL. (Characters beyond ASCII encode to bytes
/// that are all allowed.)
pub open spec fn header_text_ok(s: Seq<char>) -> bool {
    forall|i: int| 0 <= i < s.len() ==> (s[i] == '\t' || (' ' <= #[trigger] s[i] && s[i] != '\u{7f}'))
}

/// `HeaderValue::from_str`: accepts exactly the texts whose bytes are tab or
/// in `32..=255` other than `127` (as the `http` crate's source checks).
#[verifier::external_body]
fn header_value_ok(s: &str) -> (b: bool)
    ensures
        b == header_text_ok(s@),
{
    HeaderValue::from_str(s).is_ok()
}

/// `reqwest::ClientBuilder::build` with these default headers (each pair
/// converted to a header name and value, which the `requires` makes
/// succeed), the user agent and the timeout. Nothing is promised of the
/// outcome: it depends on the TLS setup of the machine.
#[verifier::external_body]
fn http_client(headers: &Vec<(String, String)>, user_agent: &str, timeout: Duration) -> (r: Result<
    HttpClient,
    reqwest::Error,
>)
    requires
        forall|i: int|
            0 <= i < headers@.len() ==> header_name_ok(#[trigger] headers@[i].0@) && header_text_ok(
                headers@[i].1@,
            ),
{
    let mut map = HeaderMap::new();
    for (name, value) in headers {
        match (HeaderName::from_bytes(name.as_bytes()), HeaderValue::from_str(value)) {
            (Ok(n), Ok(v)) => {
                map.insert(n, v);
            },
            _ => {},
        }
    }
    HttpClient::builder().default_headers(map).user_agent(user_agent).timeout(timeout).build()
}

/// Whether `Url::parse` accepts the text.
pub uninterp spec fn url_parses(text: Seq<char>) -> bool;

/// The URL that `Url::parse` makes of the text, where it accepts it.
pub uninterp spec fn parsed_url(text: Seq<char>) -> Url;

/// `Url::parse`, a function of the text alone.
#[verifier::external_body]
fn parse_url(text: &str) -> (r: Result<Url, url::ParseError>)
    ensures
        r is Ok <==> url_parses(text@),
        r matches Ok(u) ==> u == parsed_url(text@),
{
    Url::parse(text)
}

/// What `Url::join` makes of a base URL and a relative reference, `None`
/// where it fails; a function of the two alone.
pub uninterp spec fn joined_url(base: Url, rel: Seq<char>) -> Option<Url>;

/// `Url::join`: the reference resolved against the base URL.
#[verifier::external_body]
fn join_url(base: &Url, path: &str) -> (r: Result<Url, url::ParseError>)
    ensures
        r is Ok <==> joined_url(*base, path@) is Some,
        r matches Ok(u) ==> joined_url(*base, path@) == Some(u),
{
    base.join(path)
}

// ---- Client -------------------------------------------------------------------------

/// An API client: the HTTP client with the Datadog headers, and the base URL.
pub struct Client {
    http: HttpClient,
    base: Url,
    headers: Vec<(String, String)>,
    user_agent: String,
    timeout: Duration,
}

/// `s` without its leading `c` characters (`trim_start_matches`).
pub open spec fn strip_leading(s: Seq<char>, c: char) -> Seq<char>
    decreases s.len(),
{
    if s.len() > 0 && s[0] == c {
        strip_leading(s.drop_first(), c)
    } else {
        s
    }
}

/// Removes the leading `c` characters of `s`.
pub fn strip_leading_chars(s: &str, c: char) -> (r: String)
    ensures
        r@ == strip_leading(s@, c),
{
    let v = chars_of(s);
    let n = v.len();
    let mut i: usize = 0;
    assert(v@.subrange(0, n as int) =~= v@);
    while i < n && v[i] == c
        invariant
            n == v@.len(),
            i <= n,
            strip_leading(v@, c) == strip_leading(v@.subrange(i as int, n as int), c),
        decreases n - i,
    {
        assert(v@.subrange(i as int, n as int).drop_first() =~= v@.subrange(i + 1, n as int));
        i = i + 1;
    }
    let rest = crate::text::slice_chars(v.as_slice(), i, n);
    assert(v@.subrange(0, n as int) =~= v@);
    string_from_chars(rest.as_slice())
}

impl Client {
    /// The base URL of the client.
    pub closed spec fn base(&self) -> Url {
        self.base
    }

    /// The base URL, `https://api.<site>/`.
    pub fn base_url(&self) -> (r: &Url)
        ensures
            *r == self.base(),
    {
        &self.base
    }

    /// The default headers the HTTP client was built with.
    pub closed spec fn default_headers(&self) -> Seq<(Seq<char>, Seq<char>)> {
        pair_views(self.headers@)
    }

    /// The user agent the HTTP client was built with.
    pub closed spec fn agent(&self) -> Seq<char> {
        self.user_agent@
    }

    /// The per-request timeout the HTTP client was built with.
    pub closed spec fn request_timeout(&self) -> Duration {
        self.timeout
    }

    /// The HTTP client of the client.
    pub closed spec fn http_client(&self) -> HttpClient {
        self.http
    }

    /// The underlying HTTP client, which carries the Datadog key headers.
    pub fn http(&self) -> (r: &HttpClient)
        ensures
            *r == self.http_client(),
    {
        &self.http
    }

    /// The endpoint URL for an API path: the path without its leading
    /// slashes, joined to the base URL.
    pub fn url(&self, path: &str) -> (r: Result<Url, ApiError>)
        ensures
            r matches Ok(u) ==> joined_url(self.base(), strip_leading(path@, '/')) == Some(u),
            r is Err <==> joined_url(self.base(), strip_leading(path@, '/')) is None,
            r matches Err(e) ==> e is Url,
    {
        let rel = strip_leading_chars(path, '/');
        match join_url(&self.base, rel.as_str()) {
            Ok(u) => Ok(u),
            Err(e) => Err(ApiError::Url(e)),
        }
    }
}

// ---- Retry policy -----------------------------------------------------------------

/// `2^k`.
pub open spec fn two_pow(k: nat) -> nat
    decreases k,
{
    if k == 0 {
        1
    } else {
        2 * two_pow((k - 1) as nat)
    }
}

/// The wait before retrying after attempt `attempt`, in milliseconds:
/// 500 ms, 1 s, 2 s, … (`500 * 2^(attempt - 1)`, saturating at attempt 0).
pub open spec fn backoff_ms(attempt: nat) -> nat {
    500 * two_pow(if attempt > 0 {
        (attempt - 1) as nat
    } else {
        0
    })
}

/// Each retry waits twice as long as the one before it.
pub proof fn backoff_doubles(attempt: nat)
    requires
        attempt >= 1,
    ensures
        backoff_ms(attempt + 1) == 2 * backoff_ms(attempt),
{
}

/// The backoff before the next attempt.
pub fn backoff_for(attempt: u32) -> (d: Duration)
    requires
        attempt <= 56,
    ensures
        d == millis_to_duration(backoff_ms(attempt as nat)),
{
    let k: u32 = if attempt > 0 {
        attempt - 1
    } else {
        0
    };
    let mut p: u64 = 1;
    let mut i: u32 = 0;
    proof {
        lemma_two_pow_55();
    }
    while i < k
        invariant
            i <= k <= 55,
            p == two_pow(i as nat),
            two_pow(55) == 0x80_0000_0000_0000,
        decreases k - i,
    {
        proof {
            lemma_two_pow_mono((i + 1) as nat, 55);
        }
        p = p * 2;
        i = i + 1;
    }
    proof {
        lemma_two_pow_mono(k as nat, 55);
    }
    duration_from_millis(500 * p)
}

proof fn lemma_two_pow_55()
    ensures
        two_pow(55) == 0x80_0000_0000_0000,
{
    reveal_with_fuel(two_pow, 56);
}

proof fn lemma_two_pow_mono(a: nat, b: nat)
    requires
        a <= b,
    ensures
        two_pow(a) <= two_pow(b),
    decreases b,
{
    if a < b {
        lemma_two_pow_mono(a, (b - 1) as nat);
    }
}

/// What the request loop does after an attempt.
pub enum Step {
    /// The request succeeded: decode this body.
    Decode(String),
    /// Wait this long, then send the request again.
    Retry { wait: Duration },
    /// Give up with this error.
    Fail(ApiError),
}

/// What `reqwest::Error::is_timeout` says of an error: a function of the
/// error value alone (its kind and the chain of its sources).
pub uninterp spec fn timeout_error(e: reqwest::Error) -> bool;

/// What `reqwest::Error::is_connect` says of an error: a function of the
/// error value alone (its kind and the chain of its sources).
pub uninterp spec fn connect_error(e: reqwest::Error) -> bool;

/// `reqwest::Error::is_timeout`: whether the error is a timeout.
#[verifier::external_body]
fn is_timeout(e: &reqwest::Error) -> (b: bool)
    ensures
        b == timeout_error(*e),
{
    e.is_timeout()
}

/// `reqwest::Error::is_connect`: whether the error arose while connecting.
#[verifier::external_body]
fn is_connect(e: &reqwest::Error) -> (b: bool)
    ensures
        b == connect_error(*e),
{
    e.is_connect()
}

/// The step after attempt number `attempt` (counted from 1) failed to send
/// with error `e`, `transient` telling whether it was a timeout or a
/// connection failure: those are retried with backoff while attempts
/// remain; every other failure is a network error at once.
pub fn send_error_step(attempt: u32, transient: bool, e: reqwest::Error) -> (r: Step)
    requires
        attempt >= 1,
    ensures
        attempt < MAX_RETRIES && transient ==> r == (Step::Retry {
            wait: millis_to_duration(backoff_ms(attempt as nat)),
        }),
        !(attempt < MAX_RETRIES && transient) ==> r == Step::Fail(ApiError::Network(e)),
{
    if attempt < MAX_RETRIES && transient {
        Step::Retry { wait: backoff_for(attempt) }
    } else {
        Step::Fail(ApiError::Network(e))
    }
}

/// The step after attempt number `attempt` (counted from 1) failed to send:
/// timeouts and connection errors are retried with backoff while attempts
/// remain; everything else is a network error.
pub fn on_send_error(attempt: u32, e: reqwest::Error) -> (r: Step)
    requires
        attempt >= 1,
    ensures
        attempt < MAX_RETRIES && (timeout_error(e) || connect_error(e)) ==> r == (Step::Retry {
            wait: millis_to_duration(backoff_ms(attempt as nat)),
        }),
        !(attempt < MAX_RETRIES && (timeout_error(e) || connect_error(e))) ==> r == Step::Fail(
            ApiError::Network(e),
        ),
{
    let transient = is_timeout(&e) || is_connect(&e);
    send_error_step(attempt, transient, e)
}

/// The `Retry-After` hint in seconds: the header text parsed as a `u64`.
pub open spec fn retry_after_secs(header: Option<Seq<char>>) -> Option<int> {
    match header {
        Some(h) => parse_u64(h),
        None => None,
    }
}

/// The step after attempt number `attempt` (counted from 1) got a response
/// with this status, `Retry-After` header text and body.
pub open spec fn response_step(
    attempt: nat,
    status: u16,
    retry_after: Option<Seq<char>>,
    body: String,
) -> Step {
    if 200 <= status <= 299 {
        Step::Decode(body)
    } else if status == 401 || status == 403 {
        Step::Fail(ApiError::Auth)
    } else if status == 404 {
        Step::Fail(ApiError::NotFound(body))
    } else if status == 429 {
        if attempt < MAX_RETRIES {
            Step::Retry {
                wait: match retry_after_secs(retry_after) {
                    Some(s) => secs_to_duration(s as nat),
                    None => millis_to_duration(backoff_ms(attempt)),
                },
            }
        } else {
            Step::Fail(
                ApiError::RateLimited {
                    retry_after_secs: match retry_after_secs(retry_after) {
                        Some(s) => s as u64,
                        None => 0,
                    },
                },
            )
        }
    } else if 500 <= status <= 599 && attempt < MAX_RETRIES {
        Step::Retry { wait: millis_to_duration(backoff_ms(attempt)) }
    } else {
        Step::Fail(ApiError::Upstream { status, body })
    }
}

/// Decides what to do with a response: success statuses are decoded;
/// 401/403 are auth errors, 404 not found; 429 and 5xx are retried while
/// attempts remain (429 honouring `Retry-After`), then reported.
pub fn on_response(attempt: u32, status: u16, retry_after: Option<String>, body: String) -> (r:
    Step)
    requires
        attempt >= 1,
    ensures
        r == response_step(
            attempt as nat,
            status,
            match retry_after {
                Some(h) => Some(h@),
                None => None,
            },
            body,
        ),
{
    let hint: Option<u64> = match &retry_after {
        Some(h) => {
            let v = chars_of(h.as_str());
            parse_u64_chars(v.as_slice())
        },
        None => None,
    };
    if 200 <= status && status <= 299 {
        Step::Decode(body)
    } else if status == 401 || status == 403 {
        Step::Fail(ApiError::Auth)
    } else if status == 404 {
        Step::Fail(ApiError::NotFound(body))
    } else if status == 429 {
        if attempt < MAX_RETRIES {
            let wait = match hint {
                Some(s) => duration_from_secs(s),
                None => backoff_for(attempt),
            };
            Step::Retry { wait }
        } else {
            let secs = match hint {
                Some(s) => s,
                None => 0,
            };
            Step::Fail(ApiError::RateLimited { retry_after_secs: secs })
        }
    } else if 500 <= status && status <= 599 && attempt < MAX_RETRIES {
        Step::Retry { wait: backoff_for(attempt) }
    } else {
        Step::Fail(ApiError::Upstream { status, body })
    }
}

/// Every decision of the retry loop stops after at most `MAX_RETRIES`
/// attempts: no step asks for another attempt once `MAX_RETRIES` were made.
pub proof fn retries_are_bounded(
    attempt: nat,
    status: u16,
    retry_after: Option<Seq<char>>,
    body: String,
)
    requires
        attempt >= MAX_RETRIES,
    ensures
        !(response_step(attempt, status, retry_after, body) is Retry),
{
}

/// Only rate limiting (429) and server errors (5xx) are retried, a 429 waits
/// as long as its `Retry-After` header asks when it gives a number, and
/// every other wait doubles with each attempt from 500 ms.
pub proof fn retry_policy(attempt: nat, status: u16, retry_after: Option<Seq<char>>, body: String)
    requires
        attempt >= 1,
    ensures
        response_step(attempt, status, retry_after, body) is Retry ==> status == 429 || (500 <= status
            <= 599),
        status == 429 && attempt < MAX_RETRIES ==> (retry_after_secs(retry_after) matches Some(s)
            ==> response_step(attempt, status, retry_after, body) == (Step::Retry {
            wait: secs_to_duration(s as nat),
        })),
        500 <= status <= 599 && attempt < MAX_RETRIES ==> response_step(attempt, status, retry_after, body)
            == (Step::Retry { wait: millis_to_duration(backoff_ms(attempt)) }),
{
}

} // verus!
