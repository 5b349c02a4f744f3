//! Client configuration, account-level endpoints and pagination.

use vstd::prelude::*;
use crate::duration::Duration;
use crate::error::Error;
use crate::json::{Json, JsonValue, json_parse, parse_json};
use crate::models::Readiness;
use crate::text::{chars_of, trim, trimmed, parse_u64, parse_u64_spec, str_eq, string_from_range,
    percent_encode, percent_encode_bytes, u64_to_decimal, decimal};
use crate::transport::{DEFAULT_BASE_URL, DEFAULT_TIMEOUT_SECS, Method, RequestOptions, RetryOptions, Transport,
    UrlParts, parse_url, url_parse_result, headers_view};
use crate::call::{ApiRequest, Call, PagedRequest, PagedCall, authed, encoded, no_query, plain, plain_options};
use crate::instance::{Instance, sandbox_path};
use crate::models::{CreateSandboxResponse, Sandbox, created_projection};
use crate::options::ListSandboxesOptions;
use crate::requests::CreateSandboxRequest;
use crate::services::{DisksService, NetworksService, TemplatesService};

verus! {

/// User agent of requests unless the builder sets another.
pub const DEFAULT_USER_AGENT: &'static str = "createos-rust-sdk/0.1.0";

/// Builder for [`Client`].
#[derive(Debug)]
pub struct ClientBuilder {
    api_key: Option<String>,
    base_url: Option<String>,
    timeout: Option<Duration>,
    retry: Option<RetryOptions>,
    user_agent: Option<String>,
}

/// Text of an optional string.
pub open spec fn opt_view(s: Option<String>) -> Option<Seq<char>> {
    match s {
        Some(t) => Some(t@),
        None => None,
    }
}

impl ClientBuilder {
    pub closed spec fn api_key_of(self) -> Option<Seq<char>> {
        opt_view(self.api_key)
    }

    pub closed spec fn base_url_of(self) -> Option<Seq<char>> {
        opt_view(self.base_url)
    }

    pub closed spec fn timeout_of(self) -> Option<Duration> {
        self.timeout
    }

    pub closed spec fn retry_of(self) -> Option<RetryOptions> {
        self.retry
    }

    pub closed spec fn user_agent_of(self) -> Option<Seq<char>> {
        opt_view(self.user_agent)
    }

    /// A builder with nothing set.
    pub fn new() -> (b: ClientBuilder)
        ensures
            b.api_key_of() is None,
            b.base_url_of() is None,
            b.timeout_of() is None,
            b.retry_of() is None,
            b.user_agent_of() is None,
    {
        ClientBuilder { api_key: None, base_url: None, timeout: None, retry: None, user_agent: None }
    }

    /// Sets the API key.
    pub fn api_key(self, value: &str) -> (b: ClientBuilder)
        ensures
            b.api_key_of() == Some(value@),
            b.base_url_of() == self.base_url_of(),
            b.timeout_of() == self.timeout_of(),
            b.retry_of() == self.retry_of(),
            b.user_agent_of() == self.user_agent_of(),
    {
        ClientBuilder { api_key: Some(value.to_owned()), ..self }
    }

    /// Overrides the control-plane URL.
    pub fn base_url(self, value: &str) -> (b: ClientBuilder)
        ensures
            b.base_url_of() == Some(value@),
            b.api_key_of() == self.api_key_of(),
            b.timeout_of() == self.timeout_of(),
            b.retry_of() == self.retry_of(),
            b.user_agent_of() == self.user_agent_of(),
    {
        ClientBuilder { base_url: Some(value.to_owned()), ..self }
    }

    /// Sets the default complete-request timeout.
    pub fn timeout(self, value: Duration) -> (b: ClientBuilder)
        ensures
            b.timeout_of() == Some(value),
            b.api_key_of() == self.api_key_of(),
            b.base_url_of() == self.base_url_of(),
            b.retry_of() == self.retry_of(),
            b.user_agent_of() == self.user_agent_of(),
    {
        ClientBuilder { timeout: Some(value), ..self }
    }

    /// Sets the retry policy.
    pub fn retry(self, value: RetryOptions) -> (b: ClientBuilder)
        ensures
            b.retry_of() == Some(value),
            b.api_key_of() == self.api_key_of(),
            b.base_url_of() == self.base_url_of(),
            b.timeout_of() == self.timeout_of(),
            b.user_agent_of() == self.user_agent_of(),
    {
        ClientBuilder { retry: Some(value), ..self }
    }

    /// Disables automatic retries: no retries, default delays.
    pub fn without_retry(self) -> (b: ClientBuilder)
        ensures
            b.retry_of() matches Some(r) && r.max_retries == 0 && r.base_delay@ == 500_000_000
                && r.max_delay@ == 30_000_000_000,
            b.api_key_of() == self.api_key_of(),
            b.base_url_of() == self.base_url_of(),
            b.timeout_of() == self.timeout_of(),
            b.user_agent_of() == self.user_agent_of(),
    {
        let defaults = RetryOptions::default();
        ClientBuilder { retry: Some(RetryOptions { max_retries: 0, ..defaults }), ..self }
    }

    /// Overrides the user agent.
    pub fn user_agent(self, value: &str) -> (b: ClientBuilder)
        ensures
            b.user_agent_of() == Some(value@),
            b.api_key_of() == self.api_key_of(),
            b.base_url_of() == self.base_url_of(),
            b.timeout_of() == self.timeout_of(),
            b.retry_of() == self.retry_of(),
    {
        ClientBuilder { user_agent: Some(value.to_owned()), ..self }
    }
}

/// The API key a client uses: the builder's, else the environment's, trimmed; none when
/// that leaves nothing.
pub open spec fn chosen_api_key(builder: Option<Seq<char>>, environment: Option<Seq<char>>) -> Option<Seq<char>> {
    let raw = if builder is Some { builder } else { environment };
    match raw {
        Some(k) => if trimmed(k).len() > 0 { Some(trimmed(k)) } else { None },
        None => None,
    }
}

/// `s` without trailing `/` characters.
pub open spec fn strip_trailing_slashes(s: Seq<char>) -> Seq<char>
    decreases s.len(),
{
    if s.len() > 0 && s.last() == '/' { strip_trailing_slashes(s.drop_last()) } else { s }
}

/// The control-plane URL a client uses, or why the configured one is refused: the
/// builder's, else the environment's, else the default URL, trimmed and parsed; it must
/// be HTTP(S) with a host and carry no credentials, query or fragment; it is then
/// normalized to end in exactly one `/`.
pub open spec fn configured_base_url(builder: Option<Seq<char>>, environment: Option<Seq<char>>) -> Result<Seq<char>, Seq<char>> {
    let raw = match builder {
        Some(u) => u,
        None => match environment {
            Some(u) => u,
            None => DEFAULT_BASE_URL@,
        },
    };
    match url_parse_result(trimmed(raw)) {
        Err(e) => Err("invalid base URL: "@ + e),
        Ok(p) => if !((p.scheme == "http"@ || p.scheme == "https"@) && p.has_host) {
            Err("base URL must be an HTTP(S) URL with a host"@)
        } else if p.username.len() != 0 || p.has_password || p.has_query || p.has_fragment {
            Err("base URL must not contain credentials, a query, or a fragment"@)
        } else {
            match url_parse_result(strip_trailing_slashes(p.serialization) + "/"@) {
                Ok(q) => Ok(q.serialization),
                Err(e) => Err(e),
            }
        },
    }
}

fn trim_trailing_slashes(s: &str) -> (r: String)
    ensures
        r@ == strip_trailing_slashes(s@),
{
    let cs = chars_of(s);
    let mut end: usize = cs.len();
    assert(cs@.subrange(0, cs@.len() as int) =~= cs@);
    while end > 0 && cs[end - 1] == '/'
        invariant
            end <= cs.len(),
            cs@ == s@,
            strip_trailing_slashes(s@) == strip_trailing_slashes(cs@.subrange(0, end as int)),
        decreases end,
    {
        let ghost t = cs@.subrange(0, end as int);
        assert(t.drop_last() =~= cs@.subrange(0, end - 1));
        end -= 1;
    }
    string_from_range(&cs, 0, end)
}

fn configuration_error(message: &str) -> (e: Error)
    ensures
        e matches Error::Configuration(m) && m@ == message@,
{
    Error::Configuration(message.to_owned())
}

fn base_url_from(builder: Option<String>, environment: Option<String>) -> (r: Result<String, Error>)
    ensures
        match (r, configured_base_url(opt_view(builder), opt_view(environment))) {
            (Ok(a), Ok(b)) => a@ == b,
            (Err(Error::Configuration(a)), Err(b)) => a@ == b,
            _ => false,
        },
{
    let raw = match builder {
        Some(u) => u,
        None => match environment {
            Some(u) => u,
            None => String::from_str(DEFAULT_BASE_URL),
        },
    };
    let parsed = match parse_url(trim(raw.as_str()).as_str()) {
        Ok(p) => p,
        Err(e) => {
            let mut m = String::from_str("invalid base URL: ");
            m.append(e.as_str());
            return Err(Error::Configuration(m));
        },
    };
    if !((str_eq(parsed.scheme.as_str(), "http") || str_eq(parsed.scheme.as_str(), "https")) && parsed.has_host) {
        return Err(configuration_error("base URL must be an HTTP(S) URL with a host"));
    }
    if !parsed.username.as_str().is_empty() || parsed.has_password || parsed.has_query || parsed.has_fragment {
        return Err(configuration_error("base URL must not contain credentials, a query, or a fragment"));
    }
    let mut normalized = trim_trailing_slashes(parsed.serialization.as_str());
    normalized.append("/");
    match parse_url(normalized.as_str()) {
        Ok(p) => Ok(p.serialization),
        Err(e) => Err(Error::Configuration(e)),
    }
}

/// Entry point to the `CreateOS` Sandbox API: the validated configuration of its requests.
#[derive(Debug)]
pub struct Client {
    /// Configuration shared by every request.
    pub transport: Transport,
}

impl ClientBuilder {
    /// Validates the configuration and constructs the client. `env_api_key` and
    /// `env_base_url` are the values of `CREATEOS_SANDBOX_API_KEY` and
    /// `CREATEOS_SANDBOX_BASE_URL`; explicit builder values take precedence.
    pub fn build(self, env_api_key: Option<String>, env_base_url: Option<String>) -> (r: Result<Client, Error>)
        ensures
            ({
                let url = configured_base_url(self.base_url_of(), opt_view(env_base_url));
                let ua = match self.user_agent_of() { Some(u) => u, None => DEFAULT_USER_AGENT@ };
                &&& url matches Err(m) ==> (r matches Err(Error::Configuration(e)) && e@ == m)
                &&& url is Ok && (self.timeout_of() matches Some(t) && t@ == 0) ==>
                    (r matches Err(Error::Configuration(e)) && e@ == "timeout must be positive"@)
                &&& url is Ok && !(self.timeout_of() matches Some(t) && t@ == 0) && trimmed(ua).len() == 0 ==>
                    (r matches Err(Error::Configuration(e)) && e@ == "user agent must not be empty"@)
                &&& url is Ok && !(self.timeout_of() matches Some(t) && t@ == 0) && trimmed(ua).len() != 0 ==>
                    (r matches Ok(c) && {
                        &&& c.transport.base_url@ == url->Ok_0
                        &&& opt_view(c.transport.api_key) == chosen_api_key(self.api_key_of(), opt_view(env_api_key))
                        &&& c.transport.timeout@ == match self.timeout_of() {
                            Some(t) => t@,
                            None => DEFAULT_TIMEOUT_SECS as nat * 1_000_000_000,
                        }
                        &&& match self.retry_of() {
                            Some(p) => c.transport.retry == p,
                            None => c.transport.retry.max_retries == 2 && c.transport.retry.base_delay@ == 500_000_000
                                && c.transport.retry.max_delay@ == 30_000_000_000,
                        }
                        &&& c.transport.user_agent@ == ua
                    })
            }),
    {
        let raw_key = match self.api_key {
            Some(k) => Some(k),
            None => env_api_key,
        };
        let api_key = match raw_key {
            Some(k) => {
                let t = trim(k.as_str());
                if t.as_str().is_empty() { None } else { Some(t) }
            },
            None => None,
        };
        let base_url = base_url_from(self.base_url, env_base_url)?;
        let timeout = match self.timeout {
            Some(t) => {
                if t.is_zero() {
                    return Err(configuration_error("timeout must be positive"));
                }
                t
            },
            None => Duration::from_secs(DEFAULT_TIMEOUT_SECS),
        };
        let retry = match self.retry {
            Some(p) => p,
            None => RetryOptions::default(),
        };
        let user_agent = match self.user_agent {
            Some(u) => u,
            None => String::from_str(DEFAULT_USER_AGENT),
        };
        if trim(user_agent.as_str()).as_str().is_empty() {
            return Err(configuration_error("user agent must not be empty"));
        }
        Ok(Client { transport: Transport { base_url, api_key, timeout, retry, user_agent } })
    }
}

impl Client {
    /// Starts a client builder.
    pub fn builder() -> (b: ClientBuilder)
        ensures
            b.api_key_of() is None,
            b.base_url_of() is None,
            b.timeout_of() is None,
            b.retry_of() is None,
            b.user_agent_of() is None,
    {
        ClientBuilder::new()
    }

    /// The configured control-plane URL.
    pub fn base_url(&self) -> (u: &str)
        ensures
            u@ == self.transport.base_url@,
    {
        self.transport.base_url.as_str()
    }
}

// ---------------------------------------------------------------------------
// Path segments.

/// A value percent-encoded for use as one path segment: every UTF-8 byte that is not an
/// ASCII letter or digit becomes `%XX`.
pub fn encode(value: &str) -> (r: String)
    ensures
        r@ == percent_encode_bytes(vstd::utf8::encode_utf8(value@)),
{
    percent_encode(value)
}

// ---------------------------------------------------------------------------
// Pagination.

/// Items requested per page at most.
pub const PAGE_SIZE: usize = 500;

/// Walks the pages of a list endpoint: which page to ask for next, and when to stop.
pub struct Pager {
    limit: Option<usize>,
    offset: usize,
    collected: usize,
    done: bool,
}

/// The start offset a query asks for: the value of its first `offset` pair when that is
/// a number, else 0.
pub open spec fn query_offset(query: Seq<(Seq<char>, Seq<char>)>) -> nat
    decreases query.len(),
{
    if query.len() == 0 {
        0
    } else if query[0].0 == "offset"@ {
        match parse_u64_spec(query[0].1) {
            Some(v) => if v <= usize::MAX { v as nat } else { 0 },
            None => 0,
        }
    } else {
        query_offset(query.drop_first())
    }
}

/// The size of the next page: the full page size without a limit, else what the limit
/// leaves, capped at the page size.
pub open spec fn page_size(limit: Option<usize>, collected: nat) -> nat {
    match limit {
        None => PAGE_SIZE as nat,
        Some(l) => {
            let left = if collected >= l { 0nat } else { (l - collected) as nat };
            if left < PAGE_SIZE { left } else { PAGE_SIZE as nat }
        },
    }
}

/// Where a page walk stands: its limit, the offset of its next page, how many items it
/// has collected, and whether it is over.
pub open spec fn walk_state(limit: Option<usize>, offset: nat, collected: nat, done: bool)
    -> (Option<usize>, nat, nat, bool) {
    (limit, offset, collected, done)
}

/// The page a walk requests next, as size and offset; none once it is over or its limit
/// is reached.
pub open spec fn walk_next(s: (Option<usize>, nat, nat, bool)) -> Option<(nat, nat)> {
    if s.3 || page_size(s.0, s.2) == 0 { None } else { Some((page_size(s.0, s.2), s.1)) }
}

/// A walk after a page of `count` items with the total the server reported: over on an
/// empty page, without a total, or once the total is reached; otherwise at the next offset.
pub open spec fn walk_step(s: (Option<usize>, nat, nat, bool), count: nat, total: Option<nat>)
    -> (Option<usize>, nat, nat, bool) {
    let done = s.3 || count == 0 || match total {
        None => true,
        Some(t) => s.1 + count >= t,
    };
    (s.0, if done { s.1 } else { s.1 + count }, s.2 + count, done)
}

/// How many of the collected items a walk returns: all of them, or the limit.
pub open spec fn kept_count(limit: Option<usize>, collected: nat) -> nat {
    match limit {
        Some(l) => if collected <= l { collected } else { l as nat },
        None => collected,
    }
}

impl Pager {
    pub closed spec fn limit(self) -> Option<usize> {
        self.limit
    }

    pub closed spec fn offset(self) -> nat {
        self.offset as nat
    }

    pub closed spec fn collected(self) -> nat {
        self.collected as nat
    }

    pub closed spec fn done(self) -> bool {
        self.done
    }

    /// The walk's state.
    pub open spec fn state(self) -> (Option<usize>, nat, nat, bool) {
        walk_state(self.limit(), self.offset(), self.collected(), self.done())
    }

    /// A pager starting at the query's `offset` (0 when absent or not a number).
    pub fn new(query: &Vec<(String, String)>, limit: Option<usize>) -> (p: Pager)
        ensures
            p.limit() == limit,
            p.offset() == query_offset(headers_view(query@)),
            p.collected() == 0,
            !p.done(),
    {
        let mut i: usize = 0;
        let ghost q = headers_view(query@);
        assert(q.subrange(0, q.len() as int) =~= q);
        while i < query.len()
            invariant
                i <= query.len(),
                q == headers_view(query@),
                query_offset(q) == query_offset(q.subrange(i as int, q.len() as int)),
            decreases query.len() - i,
        {
            let ghost t = q.subrange(i as int, q.len() as int);
            assert(t[0] == (query@[i as int].0@, query@[i as int].1@));
            if str_eq(query[i].0.as_str(), "offset") {
                let start: usize = match parse_u64(query[i].1.as_str()) {
                    Some(v) => if v <= usize::MAX as u64 { v as usize } else { 0 },
                    None => 0,
                };
                return Pager { limit, offset: start, collected: 0, done: false };
            }
            assert(t.drop_first() =~= q.subrange(i + 1, q.len() as int));
            i += 1;
        }
        Pager { limit, offset: 0, collected: 0, done: false }
    }

    /// The next page to request, as size and offset; none when the walk is over.
    pub fn next_page(&self) -> (r: Option<(usize, usize)>)
        ensures
            self.done() ==> r is None,
            !self.done() && page_size(self.limit(), self.collected()) == 0 ==> r is None,
            !self.done() && page_size(self.limit(), self.collected()) != 0 ==>
                r == Some((page_size(self.limit(), self.collected()) as usize, self.offset() as usize)),
            r matches Some((size, _)) ==> 1 <= size <= PAGE_SIZE,
            match walk_next(self.state()) {
                None => r is None,
                Some((size, offset)) => r == Some((size as usize, offset as usize)),
            },
    {
        if self.done {
            return None;
        }
        let size = match self.limit {
            None => PAGE_SIZE,
            Some(l) => {
                let left = if self.collected >= l { 0 } else { l - self.collected };
                if left < PAGE_SIZE { left } else { PAGE_SIZE }
            },
        };
        if size == 0 {
            return None;
        }
        Some((size, self.offset))
    }

    /// Whether a page of `count` items can be recorded: its offset and the items collected
    /// still fit in a `usize`.
    pub fn can_record(&self, count: usize) -> (b: bool)
        ensures
            b == (self.offset() + count <= usize::MAX && self.collected() + count <= usize::MAX),
    {
        count <= usize::MAX - self.offset && count <= usize::MAX - self.collected
    }

    /// Records a page of `count` items, with the total the server reported; the walk ends
    /// on an empty page, without a total, or once the total is reached.
    pub fn record(&mut self, count: usize, total: Option<usize>)
        requires
            old(self).offset() + count <= usize::MAX,
            old(self).collected() + count <= usize::MAX,
        ensures
            final(self).limit() == old(self).limit(),
            final(self).collected() == old(self).collected() + count,
            final(self).done() == (old(self).done() || count == 0 || match total {
                None => true,
                Some(t) => old(self).offset() + count >= t,
            }),
            final(self).offset() == if final(self).done() { old(self).offset() as int } else { old(self).offset() + count },
            final(self).state() == walk_step(old(self).state(), count as nat, match total {
                Some(t) => Some(t as nat),
                None => None,
            }),
    {
        self.collected = self.collected + count;
        let finished = self.done || count == 0 || match total {
            None => true,
            Some(t) => self.offset + count >= t,
        };
        if finished {
            self.done = true;
        } else {
            self.offset = self.offset + count;
        }
    }

    /// How many of the `collected` items the caller keeps: all of them, or the limit.
    pub fn kept(&self, collected: usize) -> (n: usize)
        ensures
            n == match self.limit() {
                Some(l) => if collected <= l { collected } else { l },
                None => collected,
            },
            n == kept_count(self.limit(), collected as nat),
    {
        match self.limit {
            Some(l) => if collected <= l { collected } else { l },
            None => collected,
        }
    }
}

/// The caller's pairs without `limit` and `offset`, in order.
pub open spec fn without_paging(query: Seq<(Seq<char>, Seq<char>)>) -> Seq<(Seq<char>, Seq<char>)>
    decreases query.len(),
{
    if query.len() == 0 {
        query
    } else {
        let rest = without_paging(query.drop_last());
        let p = query.last();
        if p.0 == "limit"@ || p.0 == "offset"@ { rest } else { rest.push(p) }
    }
}

/// Builds the query of one page.
pub fn page_query(query: &Vec<(String, String)>, size: usize, offset: usize) -> (r: Vec<(String, String)>)
    ensures
        headers_view(r@) == without_paging(headers_view(query@))
            .push(("limit"@, decimal(size as nat)))
            .push(("offset"@, decimal(offset as nat))),
{
    let mut r: Vec<(String, String)> = Vec::new();
    let mut k: usize = 0;
    while k < query.len()
        invariant
            k <= query.len(),
            headers_view(r@) == without_paging(headers_view(query@.subrange(0, k as int))),
        decreases query.len() - k,
    {
        let ghost prefix = headers_view(query@.subrange(0, k as int));
        let ghost item = (query@[k as int].0@, query@[k as int].1@);
        let ghost next = headers_view(query@.subrange(0, k + 1));
        assert(next =~= prefix.push(item));
        assert(next.drop_last() =~= prefix);
        if !(str_eq(query[k].0.as_str(), "limit") || str_eq(query[k].0.as_str(), "offset")) {
            let ghost before = r@;
            let name = query[k].0.clone();
            let value = query[k].1.clone();
            r.push((name, value));
            assert(r@ =~= before.push((name, value)));
            assert(headers_view(r@) =~= headers_view(before).push(item));
        }
        k += 1;
    }
    assert(query@.subrange(0, query@.len() as int) =~= query@);
    let ghost before = r@;
    let limit_value = u64_to_decimal(size as u64);
    r.push((String::from_str("limit"), limit_value));
    let offset_value = u64_to_decimal(offset as u64);
    r.push((String::from_str("offset"), offset_value));
    assert(headers_view(r@) =~= headers_view(before).push(("limit"@, decimal(size as nat)))
        .push(("offset"@, decimal(offset as nat))));
    r
}

/// The items and total of one page: a bare array is all items with no total; otherwise
/// `data` (or the legacy key, or no items) and `pagination.total` when it is a number.
pub open spec fn page_items(value: Json, legacy_key: Option<Seq<char>>) -> Json {
    if value is Array {
        value
    } else {
        match value.get("data"@) {
            Some(d) => d,
            None => match legacy_key {
                Some(k) => match value.get(k) {
                    Some(d) => d,
                    None => Json::Array(Seq::empty()),
                },
                None => Json::Array(Seq::empty()),
            },
        }
    }
}

/// The total item count a page reports.
pub open spec fn page_total(value: Json) -> Option<nat> {
    if value is Array {
        None
    } else {
        match value.get("pagination"@) {
            Some(p) => match p.get("total"@) {
                Some(t) => match t.as_u64() {
                    Some(n) => if n <= usize::MAX { Some(n as nat) } else { None },
                    None => None,
                },
                None => None,
            },
            None => None,
        }
    }
}

/// Splits a decoded page into its items and its total; see [`page_items`] and [`page_total`].
pub fn decode_page(value: JsonValue, legacy_key: Option<&str>) -> (r: (JsonValue, Option<usize>))
    ensures
        r.0@ == page_items(value@, match legacy_key { Some(k) => Some(k@), None => None }),
        match (r.1, page_total(value@)) {
            (Some(a), Some(b)) => a as nat == b,
            (None, None) => true,
            _ => false,
        },
{
    if value.is_array() {
        return (value, None);
    }
    let mut total: Option<usize> = None;
    match value.get("pagination") {
        Some(p) => match p.get("total") {
            Some(t) => match t.as_u64() {
                Some(n) => if n <= usize::MAX as u64 { total = Some(n as usize); },
                None => {},
            },
            None => {},
        },
        None => {},
    }
    let has_data = value.get("data").is_some();
    if has_data {
        let items = value.take("data");
        return (items.unwrap(), total);
    }
    match legacy_key {
        Some(k) => match value.take(k) {
            Some(d) => (d, total),
            None => (JsonValue::Array(Vec::new()), total),
        },
        None => (JsonValue::Array(Vec::new()), total),
    }
}

// ---------------------------------------------------------------------------
// Readiness.

/// Decodes a readiness projection: an object with a boolean `ready`, an optional string
/// `reason` and an optional integer `scheduler_last_ok_ms_ago`; or an array of at most
/// those three, in order, with `ready` present.
pub open spec fn readiness_from_json(v: Json) -> Option<(bool, Seq<char>, i64)> {
    if !(v is Object || v is Array) || v.longer_than(3) {
        None
    } else {
        match (v.required_bool(0, "ready"@, "struct Readiness with 3 elements"@), v.string_or_default(1, "reason"@),
            v.i64_or_default(2, "scheduler_last_ok_ms_ago"@)) {
            (Ok(ready), Ok(reason), Ok(ago)) => Some((ready, reason, ago)),
            _ => None,
        }
    }
}

/// What a readiness probe reports: nothing for statuses other than 200 and 503 (an API
/// error); otherwise the decoded `data` of the body, or, when that cannot be decoded,
/// `ready` exactly for status 200.
pub open spec fn readiness_outcome_spec(status: u16, body: Seq<u8>) -> Option<(bool, Seq<char>, i64)> {
    if status != 200 && status != 503 {
        None
    } else {
        let fallback = (status == 200, Seq::<char>::empty(), 0i64);
        match json_parse(body) {
            Err(_) => Some(fallback),
            Ok(v) => {
                let data = match v.get("data"@) { Some(d) => d, None => Json::Null };
                match readiness_from_json(data) {
                    Some(r) => Some(r),
                    None => Some(fallback),
                }
            },
        }
    }
}

/// Interprets a readiness response; see [`readiness_outcome_spec`].
pub fn readiness_outcome(status: u16, body: &[u8]) -> (r: Option<Readiness>)
    ensures
        match (r, readiness_outcome_spec(status, body@)) {
            (Some(a), Some(b)) => a.ready == b.0 && a.reason@ == b.1 && a.scheduler_last_ok_ms_ago == b.2,
            (None, None) => true,
            _ => false,
        },
{
    if status != 200 && status != 503 {
        return None;
    }
    let fallback = Readiness { ready: status == 200, reason: String::new(), scheduler_last_ok_ms_ago: 0 };
    let value = match parse_json(body) {
        Ok(v) => v,
        Err(_) => return Some(fallback),
    };
    let data = match value.take("data") {
        Some(d) => d,
        None => JsonValue::Null,
    };
    if !(data.is_object() || data.is_array()) || data.longer_than(3) {
        return Some(fallback);
    }
    match (data.required_bool(0, "ready", "struct Readiness with 3 elements"), data.string_or_default(1, "reason"),
        data.i64_or_default(2, "scheduler_last_ok_ms_ago")) {
        (Ok(ready), Ok(reason), Ok(ago)) => Some(Readiness { ready, reason, scheduler_last_ok_ms_ago: ago }),
        _ => Some(fallback),
    }
}

} // verus!

verus! {

// ---------------------------------------------------------------------------
// Account-level endpoints.

impl Client {
    /// A handle for a sandbox projection, using this client's configuration.
    pub fn instance(&self, data: Sandbox) -> (i: Instance)
        ensures
            i.config() == self.transport,
            i.sandbox() == data,
    {
        Instance::new(self.transport.duplicate(), data)
    }

    /// Template operations.
    pub fn templates(&self) -> (s: TemplatesService) {
        TemplatesService
    }

    /// Overlay-network operations.
    pub fn networks(&self) -> (s: NetworksService) {
        NetworksService
    }

    /// Persistent-disk operations.
    pub fn disks(&self) -> (s: DisksService) {
        DisksService
    }

    /// Control-plane liveness: `GET /healthz`, without the API key.
    pub fn health(&self) -> (r: ApiRequest)
        ensures
            r@ == (Call { method: Method::Get, path: "/healthz"@, query: seq![], body: None, authenticated: false }),
            plain_options(r.options),
    {
        plain(Method::Get, String::from_str("/healthz"), no_query(), None, false)
    }

    /// Control-plane readiness: `GET /readyz`, without the API key and never retried;
    /// see [`readiness_outcome`] for the reply.
    pub fn readiness(&self) -> (r: ApiRequest)
        ensures
            r@ == (Call { method: Method::Get, path: "/readyz"@, query: seq![], body: None, authenticated: false }),
            r.options.headers@.len() == 0,
            r.options.timeout is None,
            r.options.retry is None,
            r.options.disable_retry,
    {
        let mut r = plain(Method::Get, String::from_str("/readyz"), no_query(), None, false);
        r.options.disable_retry = true;
        r
    }

    /// The identity of the API key: `GET /v1/whoami`.
    pub fn who_am_i(&self) -> (r: ApiRequest)
        ensures
            r@ == (Call { method: Method::Get, path: "/v1/whoami"@, query: seq![], body: None, authenticated: true }),
            plain_options(r.options),
    {
        plain(Method::Get, String::from_str("/v1/whoami"), no_query(), None, true)
    }

    /// Creates a sandbox: `POST /v1/sandboxes`; see [`Client::created_instance`] for the
    /// reply.
    pub fn create_sandbox(&self, request: &CreateSandboxRequest) -> (r: ApiRequest)
        ensures
            r@ == (Call { method: Method::Post, path: "/v1/sandboxes"@, query: seq![], body: Some(request.wire()),
                authenticated: true }),
            plain_options(r.options),
    {
        self.create_sandbox_with(request, RequestOptions::default())
    }

    /// Creates a sandbox with per-request transport options.
    pub fn create_sandbox_with(&self, request: &CreateSandboxRequest, options: RequestOptions) -> (r: ApiRequest)
        ensures
            r@ == (Call { method: Method::Post, path: "/v1/sandboxes"@, query: seq![], body: Some(request.wire()),
                authenticated: true }),
            r.options == options,
    {
        authed(Method::Post, String::from_str("/v1/sandboxes"), no_query(), Some(request.to_json()), options)
    }

    /// The handle of a created sandbox: the creation result, with ingress as requested.
    pub fn created_instance(&self, created: CreateSandboxResponse, request: &CreateSandboxRequest) -> (i: Instance)
        ensures
            i.config() == self.transport,
            created_projection(i.sandbox(), created, request.ingress_enabled),
    {
        self.instance(Sandbox::from_created(created, request.ingress_enabled))
    }

    /// Gets a sandbox by ID: `GET /v1/sandboxes/{id}`.
    pub fn sandbox(&self, id: &str) -> (r: ApiRequest)
        ensures
            r@ == (Call { method: Method::Get, path: sandbox_path(id@, ""@), query: seq![], body: None,
                authenticated: true }),
            plain_options(r.options),
    {
        let mut p = String::from_str("/v1/sandboxes/");
        let e = encode(id);
        p.append(e.as_str());
        assert(p@ == sandbox_path(id@, ""@)) by {
            reveal_strlit("");
            assert(p@ =~= "/v1/sandboxes/"@ + encoded(id@) + ""@);
        }
        plain(Method::Get, p, no_query(), None, true)
    }

    /// Gets a sandbox by private IP address: `GET /v1/sandboxes/by-ip/{ip}`.
    pub fn sandbox_by_ip(&self, ip: &str) -> (r: ApiRequest)
        ensures
            r@ == (Call { method: Method::Get, path: "/v1/sandboxes/by-ip/"@ + encoded(ip@), query: seq![],
                body: None, authenticated: true }),
            plain_options(r.options),
    {
        let mut p = String::from_str("/v1/sandboxes/by-ip/");
        let e = encode(ip);
        p.append(e.as_str());
        plain(Method::Get, p, no_query(), None, true)
    }

    /// Lists sandboxes, page by page, with the status filter when given.
    pub fn sandboxes(&self, options: ListSandboxesOptions) -> (r: PagedRequest)
        ensures
            r@ == (PagedCall { path: "/v1/sandboxes"@,
                query: match options.status { Some(s) => seq![("status"@, s.0@)], None => seq![] },
                limit: options.limit, legacy_key: None, authenticated: true }),
            r.options == options.request,
    {
        let ListSandboxesOptions { request, limit, status } = options;
        let mut query: Vec<(String, String)> = Vec::new();
        let ghost wanted = status;
        match status {
            Some(s) => {
                query.push((String::from_str("status"), s.0));
            },
            None => {},
        }
        assert(headers_view(query@) =~= match wanted { Some(s) => seq![("status"@, s.0@)], None => seq![] });
        PagedRequest {
            path: String::from_str("/v1/sandboxes"),
            query,
            limit,
            legacy_key: None,
            authenticated: true,
            options: request,
        }
    }

    /// Lists sizing presets, every page, without the API key.
    pub fn shapes(&self) -> (r: PagedRequest)
        ensures
            r@ == (PagedCall { path: "/v1/shapes"@, query: seq![], limit: None, legacy_key: Some("shapes"@),
                authenticated: false }),
            plain_options(r.options),
    {
        PagedRequest {
            path: String::from_str("/v1/shapes"),
            query: no_query(),
            limit: None,
            legacy_key: Some(String::from_str("shapes")),
            authenticated: false,
            options: RequestOptions::default(),
        }
    }

    /// The built-in root filesystem catalog: `GET /v1/rootfs`, without the API key.
    pub fn root_file_systems(&self) -> (r: ApiRequest)
        ensures
            r@ == (Call { method: Method::Get, path: "/v1/rootfs"@, query: seq![], body: None, authenticated: false }),
            plain_options(r.options),
    {
        plain(Method::Get, String::from_str("/v1/rootfs"), no_query(), None, false)
    }

    /// Lists worker hosts, every page; the endpoint requires administrator credentials.
    pub fn hosts(&self) -> (r: PagedRequest)
        ensures
            r@ == (PagedCall { path: "/v1/hosts"@, query: seq![], limit: None, legacy_key: None,
                authenticated: true }),
            plain_options(r.options),
    {
        PagedRequest {
            path: String::from_str("/v1/hosts"),
            query: no_query(),
            limit: None,
            legacy_key: None,
            authenticated: true,
            options: RequestOptions::default(),
        }
    }
}

impl Pager {
    /// The request of the next page of a walk: `GET` on the walk's endpoint with the
    /// caller's pairs, then `limit` and `offset`; none when the walk is over.
    pub fn page_request(&self, paged: &PagedRequest) -> (r: Option<ApiRequest>)
        ensures
            (self.done() || page_size(self.limit(), self.collected()) == 0) ==> r is None,
            !(self.done() || page_size(self.limit(), self.collected()) == 0) ==> (r matches Some(q) && {
                &&& q@ == (Call { method: Method::Get, path: paged.path@,
                    query: without_paging(headers_view(paged.query@))
                        .push(("limit"@, decimal(page_size(self.limit(), self.collected()))))
                        .push(("offset"@, decimal(self.offset()))),
                    body: None, authenticated: paged.authenticated })
                &&& crate::call::same_options(q.options, paged.options)
            }),
    {
        match self.next_page() {
            None => None,
            Some((size, offset)) => Some(ApiRequest {
                method: Method::Get,
                path: paged.path.clone(),
                query: page_query(&paged.query, size, offset),
                body: None,
                authenticated: paged.authenticated,
                options: crate::call::copy_options(&paged.options),
            }),
        }
    }
}

} // verus!
