//! Request policy: methods, retries, authentication, URLs and the JSend envelope.

use vstd::prelude::*;
use crate::duration::{Duration, max_nanos, min_nat};
use crate::error::{ApiError, Error, TransportFailure, reports_failure};
use crate::json::{Json, JsonValue, json_parse, parse_json, trailing_characters};
use crate::text::{chars_of, string_from_chars, string_from_range, trim, trimmed, parse_u64, parse_u64_spec, str_eq};

verus! {

/// Default control-plane URL.
pub const DEFAULT_BASE_URL: &'static str = "https://api.sb.createos.sh";

/// Default complete-request timeout, in seconds.
pub const DEFAULT_TIMEOUT_SECS: u64 = 60;

/// HTTP request method.
#[derive(Clone, Copy, Debug, PartialEq, Eq, Hash)]
pub enum Method {
    Get,
    Head,
    Post,
    Put,
    Patch,
    Delete,
}

/// Wire name of a method.
pub open spec fn method_name(m: Method) -> Seq<char> {
    match m {
        Method::Get => "GET"@,
        Method::Head => "HEAD"@,
        Method::Post => "POST"@,
        Method::Put => "PUT"@,
        Method::Patch => "PATCH"@,
        Method::Delete => "DELETE"@,
    }
}

impl Method {
    /// The wire name.
    pub fn as_str(&self) -> (s: &'static str)
        ensures
            s@ == method_name(*self),
    {
        match self {
            Method::Get => "GET",
            Method::Head => "HEAD",
            Method::Post => "POST",
            Method::Put => "PUT",
            Method::Patch => "PATCH",
            Method::Delete => "DELETE",
        }
    }
}

/// Methods that may be repeated without changing the outcome.
pub open spec fn is_idempotent(m: Method) -> bool {
    m is Get || m is Head || m is Put || m is Delete
}

/// Whether `method` may be sent again after a transport failure.
pub fn idempotent(method: Method) -> (b: bool)
    ensures
        b == is_idempotent(method),
{
    match method {
        Method::Get | Method::Head | Method::Put | Method::Delete => true,
        _ => false,
    }
}

/// Statuses after which a request is sent again: 429 and 503 always; 408, 500, 502
/// and 504 for idempotent methods.
pub open spec fn is_retryable_status(m: Method, status: u16) -> bool {
    status == 429 || status == 503
        || (is_idempotent(m) && (status == 408 || status == 500 || status == 502 || status == 504))
}

/// Whether a response with `status` is retried.
pub fn retryable_status(method: Method, status: u16) -> (b: bool)
    ensures
        b == is_retryable_status(method, status),
{
    status == 429 || status == 503
        || (idempotent(method) && (status == 408 || status == 500 || status == 502 || status == 504))
}

/// Retry policy.
#[derive(Clone, Copy, Debug)]
pub struct RetryOptions {
    /// Attempts after the initial request.
    pub max_retries: u32,
    /// Initial exponential-backoff delay.
    pub base_delay: Duration,
    /// Maximum delay between attempts.
    pub max_delay: Duration,
}

impl Default for RetryOptions {
    /// Two retries, from 500 ms up to 30 s.
    fn default() -> (r: RetryOptions)
        ensures
            r.max_retries == 2,
            r.base_delay@ == 500_000_000,
            r.max_delay@ == 30_000_000_000,
    {
        RetryOptions {
            max_retries: 2,
            base_delay: Duration::from_millis(500),
            max_delay: Duration::from_secs(30),
        }
    }
}

/// Retry delays are valid when the base delay is positive and does not exceed the maximum.
pub open spec fn retry_valid(r: RetryOptions) -> bool {
    r.base_delay@ != 0 && r.base_delay@ <= r.max_delay@
}

/// Checks a retry policy.
pub fn validate_retry(retry: &RetryOptions) -> (r: Result<(), Error>)
    ensures
        r is Ok == retry_valid(*retry),
        r matches Err(e) ==> e matches Error::Configuration(m) && m@ == "retry delays are invalid"@,
{
    if retry.base_delay.is_zero() || retry.max_delay.lt(&retry.base_delay) {
        return Err(Error::Configuration(String::from_str("retry delays are invalid")));
    }
    Ok(())
}

/// 2 to the power `n`.
pub open spec fn pow2(n: nat) -> nat
    decreases n,
{
    if n == 0 { 1 } else { 2 * pow2((n - 1) as nat) }
}

/// The exclusive upper bound of the random jitter, in milliseconds: the base delay in
/// whole milliseconds, at least 1.
pub open spec fn jitter_bound(r: RetryOptions) -> nat {
    let ms = r.base_delay@ / 1_000_000;
    let capped = if ms > u64::MAX { u64::MAX as nat } else { ms };
    if capped == 0 { 1 } else { capped }
}

/// The delay before retry number `attempt + 1` with `jitter_ms` of jitter: the base
/// delay doubled `min(attempt, 30)` times, plus the jitter, at most the maximum delay.
pub open spec fn backoff_delay(attempt: u32, r: RetryOptions, jitter_ms: nat) -> nat {
    let shift = if attempt <= 30 { attempt as nat } else { 30 };
    let exponential = min_nat(r.base_delay@ * pow2(shift), max_nanos());
    min_nat(min_nat(exponential + jitter_ms * 1_000_000, max_nanos()), r.max_delay@)
}

proof fn lemma_pow2_bound(n: nat)
    requires
        n <= 30,
    ensures
        1 <= pow2(n) <= 0x4000_0000,
    decreases n,
{
    lemma_pow2_monotone(n, 30);
    lemma_pow2_monotone(0, n);
    assert(pow2(30) == 0x4000_0000) by {
        reveal_with_fuel(pow2, 31);
    }
}

pub proof fn lemma_pow2_monotone(a: nat, b: nat)
    requires
        a <= b,
    ensures
        pow2(a) <= pow2(b),
    decreases b,
{
    if a < b {
        lemma_pow2_monotone(a, (b - 1) as nat);
    }
}

fn shift_factor(attempt: u32) -> (f: u32)
    ensures
        f == pow2(if attempt <= 30 { attempt as nat } else { 30 }),
{
    let shift = if attempt <= 30 { attempt } else { 30 };
    let mut f: u32 = 1;
    let mut i: u32 = 0;
    proof {
        lemma_pow2_bound(shift as nat);
    }
    while i < shift
        invariant
            i <= shift <= 30,
            f == pow2(i as nat),
            pow2(shift as nat) <= 0x4000_0000,
        decreases shift - i,
    {
        proof {
            lemma_pow2_monotone((i + 1) as nat, shift as nat);
        }
        f = f * 2;
        i += 1;
    }
    f
}

/// The jitter bound of a policy, in milliseconds.
pub fn jitter_bound_millis(retry: &RetryOptions) -> (b: u64)
    ensures
        b == jitter_bound(*retry),
{
    let ms = retry.base_delay.as_millis();
    let capped: u64 = if ms > 18_446_744_073_709_551_615u128 { u64::MAX } else { ms as u64 };
    if capped == 0 { 1 } else { capped }
}

/// The delay before retry number `attempt + 1`, for a given jitter.
pub fn backoff_with_jitter(attempt: u32, retry: &RetryOptions, jitter_ms: u64) -> (d: Duration)
    ensures
        d@ == backoff_delay(attempt, *retry, jitter_ms as nat),
{
    let factor = shift_factor(attempt);
    let exponential = retry.base_delay.saturating_mul(factor);
    let jitter = Duration::from_millis(jitter_ms);
    exponential.saturating_add(jitter).min(retry.max_delay)
}

/// `rand::rng().random_range(0..bound)`: a random number below `bound`.
#[verifier::external_body]
fn random_below(bound: u64) -> (r: u64)
    requires
        bound > 0,
    ensures
        r < bound,
{
    rand::Rng::random_range(&mut rand::rng(), 0..bound)
}

/// The delay before retry number `attempt + 1`, with random jitter below
/// [`jitter_bound`] milliseconds; never more than the maximum delay.
pub fn backoff(attempt: u32, retry: &RetryOptions) -> (d: Duration)
    ensures
        exists|j: nat| j < jitter_bound(*retry) && d@ == backoff_delay(attempt, *retry, j),
        d@ <= retry.max_delay@,
{
    let bound = jitter_bound_millis(retry);
    let j = random_below(bound);
    backoff_with_jitter(attempt, retry, j)
}

/// Whether `value` is a date in the format of RFC 2822 that `chrono` accepts.
pub uninterp spec fn rfc2822_date(value: Seq<char>) -> bool;

/// `chrono::DateTime::parse_from_rfc2822(value)`, then the time from now (`Utc::now`)
/// until that date: none when the text is no such date, `Some(None)` when the date has
/// passed. The remaining time itself depends on the clock and is not stated.
#[verifier::external_body]
fn time_until_rfc2822(value: &str) -> (r: Option<Option<Duration>>)
    ensures
        r is Some == rfc2822_date(value@),
{
    match chrono::DateTime::parse_from_rfc2822(value) {
        Ok(when) => match when.signed_duration_since(chrono::Utc::now()).to_std() {
            Ok(d) => Some(Some(Duration::new(d.as_secs(), d.subsec_nanos()))),
            Err(_) => Some(None),
        },
        Err(_) => None,
    }
}

/// The wait that a `Retry-After` header value asks for: whole seconds, or the time
/// until an RFC 2822 date (zero once it has passed); none for anything else.
pub fn retry_after(value: &str) -> (r: Option<Duration>)
    ensures
        parse_u64_spec(trimmed(value@)) matches Some(s) ==> r matches Some(d) && d@ == s as nat * 1_000_000_000,
        parse_u64_spec(trimmed(value@)) is None ==> (r is Some <==> rfc2822_date(trimmed(value@))),
{
    let t = trim(value);
    match parse_u64(t.as_str()) {
        Some(seconds) => Some(Duration::from_secs(seconds)),
        None => match time_until_rfc2822(t.as_str()) {
            Some(Some(d)) => Some(d),
            Some(None) => Some(Duration::zero()),
            None => None,
        },
    }
}

/// Per-request transport overrides.
#[derive(Clone, Debug)]
pub struct RequestOptions {
    /// Extra headers, as name and value. Authentication cannot be overridden.
    pub headers: Vec<(String, String)>,
    /// Complete-request timeout.
    pub timeout: Option<Duration>,
    /// Retry override.
    pub retry: Option<RetryOptions>,
    /// Disables retries for this request.
    pub disable_retry: bool,
}

impl Default for RequestOptions {
    /// No headers and no overrides.
    fn default() -> (r: RequestOptions)
        ensures
            r.headers@.len() == 0,
            r.timeout is None,
            r.retry is None,
            !r.disable_retry,
    {
        RequestOptions { headers: Vec::new(), timeout: None, retry: None, disable_retry: false }
    }
}

/// Name and value of each header, as text.
pub open spec fn headers_view(h: Seq<(String, String)>) -> Seq<(Seq<char>, Seq<char>)> {
    crate::json::text_pairs(h)
}

/// A copy of a header list.
pub fn copy_headers(headers: &Vec<(String, String)>) -> (r: Vec<(String, String)>)
    ensures
        headers_view(r@) == headers_view(headers@),
{
    let mut r: Vec<(String, String)> = Vec::new();
    let mut i: usize = 0;
    while i < headers.len()
        invariant
            i <= headers.len(),
            headers_view(r@) == headers_view(headers@.subrange(0, i as int)),
        decreases headers.len() - i,
    {
        let ghost before = r@;
        let name = headers[i].0.clone();
        let value = headers[i].1.clone();
        r.push((name, value));
        assert(r@ =~= before.push((name, value)));
        assert(headers_view(r@) =~= headers_view(before).push((headers@[i as int].0@, headers@[i as int].1@)));
        assert(headers@.subrange(0, i + 1) =~= headers@.subrange(0, i as int).push(headers@[i as int]));
        i += 1;
        assert(headers_view(r@) =~= headers_view(headers@.subrange(0, i as int)));
    }
    assert(headers@.subrange(0, headers@.len() as int) =~= headers@);
    r
}

impl RequestOptions {
    /// The same options with retries disabled, as streaming requests use them.
    pub fn without_retry(&self) -> (r: RequestOptions)
        ensures
            headers_view(r.headers@) == headers_view(self.headers@),
            r.timeout == self.timeout,
            r.retry == self.retry,
            r.disable_retry,
    {
        RequestOptions {
            headers: copy_headers(&self.headers),
            timeout: self.timeout,
            retry: self.retry,
            disable_retry: true,
        }
    }
}

/// The code of a character with ASCII letters in lower case.
pub open spec fn ascii_lower(c: char) -> int {
    if 'A' <= c && c <= 'Z' { (c as u32) + 32 } else { c as u32 as int }
}

/// Whether two names are equal ignoring ASCII case.
pub open spec fn eq_ignore_ascii_case(a: Seq<char>, b: Seq<char>) -> bool {
    a.len() == b.len() && forall|n: int| 0 <= n < a.len() ==> ascii_lower(#[trigger] a[n]) == ascii_lower(b[n])
}

fn lower(c: char) -> (r: u32)
    ensures
        r == ascii_lower(c),
{
    if 'A' <= c && c <= 'Z' {
        c as u32 + 32
    } else {
        c as u32
    }
}

/// Compares two names ignoring ASCII case.
pub fn names_match(a: &str, b: &str) -> (r: bool)
    ensures
        r == eq_ignore_ascii_case(a@, b@),
{
    let x = chars_of(a);
    let y = chars_of(b);
    if x.len() != y.len() {
        return false;
    }
    let mut i: usize = 0;
    while i < x.len()
        invariant
            x@ == a@,
            y@ == b@,
            x.len() == y.len(),
            i <= x.len(),
            forall|j: int| 0 <= j < i ==> ascii_lower(#[trigger] x@[j]) == ascii_lower(y@[j]),
        decreases x.len() - i,
    {
        if lower(x[i]) != lower(y[i]) {
            return false;
        }
        i += 1;
    }
    true
}

/// Header names that carry credentials; callers cannot set them.
pub open spec fn is_credential_header(name: Seq<char>) -> bool {
    eq_ignore_ascii_case(name, "authorization"@)
        || eq_ignore_ascii_case(name, "proxy-authorization"@)
        || eq_ignore_ascii_case(name, "cookie"@)
        || eq_ignore_ascii_case(name, "set-cookie"@)
        || eq_ignore_ascii_case(name, "x-api-key"@)
        || eq_ignore_ascii_case(name, "x-auth-token"@)
        || eq_ignore_ascii_case(name, "x-csrf-token"@)
}

/// Whether a header is one that callers may not set.
pub fn credential_header(name: &str) -> (b: bool)
    ensures
        b == is_credential_header(name@),
{
    names_match(name, "authorization") || names_match(name, "proxy-authorization")
        || names_match(name, "cookie") || names_match(name, "set-cookie")
        || names_match(name, "x-api-key") || names_match(name, "x-auth-token")
        || names_match(name, "x-csrf-token")
}

/// Headers without those that carry credentials, in their order.
pub open spec fn without_credentials(h: Seq<(Seq<char>, Seq<char>)>) -> Seq<(Seq<char>, Seq<char>)>
    decreases h.len(),
{
    if h.len() == 0 {
        h
    } else {
        let rest = without_credentials(h.drop_last());
        if is_credential_header(h.last().0) { rest } else { rest.push(h.last()) }
    }
}

/// Caller headers without those that carry credentials, in their order.
pub fn sanitized_headers(headers: &Vec<(String, String)>) -> (r: Vec<(String, String)>)
    ensures
        headers_view(r@) == without_credentials(headers_view(headers@)),
{
    let mut r: Vec<(String, String)> = Vec::new();
    let mut k: usize = 0;
    while k < headers.len()
        invariant
            k <= headers.len(),
            headers_view(r@) == without_credentials(headers_view(headers@.subrange(0, k as int))),
        decreases headers.len() - k,
    {
        let ghost prefix = headers_view(headers@.subrange(0, k as int));
        let ghost item = (headers@[k as int].0@, headers@[k as int].1@);
        let ghost next = headers_view(headers@.subrange(0, k + 1));
        assert(next =~= prefix.push(item));
        assert(next.drop_last() =~= prefix);
        if !credential_header(headers[k].0.as_str()) {
            let ghost before = r@;
            let name = headers[k].0.clone();
            let value = headers[k].1.clone();
            r.push((name, value));
            assert(r@ =~= before.push((name, value)));
            assert(headers_view(r@) =~= headers_view(before).push(item));
        }
        k += 1;
    }
    assert(headers@.subrange(0, headers@.len() as int) =~= headers@);
    r
}

/// What ended one attempt of a request.
#[derive(Clone, Copy, Debug, PartialEq, Eq)]
pub enum Outcome {
    /// A response with this status arrived.
    Response(u16),
    /// The request failed before a response; `true` when it timed out.
    Failure(bool),
}

/// Whether the request is sent again after attempt `attempt` (the first is 0) ended with
/// `outcome`: only while retries are left, after a status that is retried, or after a
/// failure of an idempotent method that was not a timeout.
pub open spec fn sends_again(method: Method, attempt: nat, max_retries: nat, outcome: Outcome) -> bool {
    attempt < max_retries && match outcome {
        Outcome::Response(status) => is_retryable_status(method, status),
        Outcome::Failure(timed_out) => is_idempotent(method) && !timed_out,
    }
}

/// How many times a request is sent from attempt `attempt` on, when its attempts end
/// with `outcomes` in turn.
pub open spec fn sends(method: Method, max_retries: nat, attempt: nat, outcomes: Seq<Outcome>) -> nat
    decreases outcomes.len(),
{
    if outcomes.len() == 0 {
        0
    } else if sends_again(method, attempt, max_retries, outcomes[0]) {
        1 + sends(method, max_retries, attempt + 1, outcomes.drop_first())
    } else {
        1
    }
}

/// The headers a request is sent with, in order: the caller's headers without those
/// that carry credentials, `accept: application/json`, the content type of a body, and
/// `x-api-key` with the key when the request carries one.
pub open spec fn sent_headers(caller: Seq<(Seq<char>, Seq<char>)>, content_type: Option<Seq<char>>,
    key: Option<Seq<char>>) -> Seq<(Seq<char>, Seq<char>)> {
    let h = without_credentials(caller).push(("accept"@, "application/json"@));
    let h = match content_type {
        Some(t) => h.push(("content-type"@, t)),
        None => h,
    };
    match key {
        Some(k) => h.push(("x-api-key"@, k)),
        None => h,
    }
}

/// The headers of one attempt of a request; see [`sent_headers`].
pub fn request_headers(options: &RequestOptions, content_type: Option<&str>, key: &Option<String>)
    -> (r: Vec<(String, String)>)
    ensures
        headers_view(r@) == sent_headers(headers_view(options.headers@),
            match content_type { Some(t) => Some(t@), None => None },
            crate::client::opt_view(*key)),
{
    let mut h = sanitized_headers(&options.headers);
    let ghost start = h@;
    h.push((String::from_str("accept"), String::from_str("application/json")));
    assert(headers_view(h@) =~= headers_view(start).push(("accept"@, "application/json"@)));
    match content_type {
        Some(t) => {
            let ghost before = h@;
            h.push((String::from_str("content-type"), t.to_owned()));
            assert(headers_view(h@) =~= headers_view(before).push(("content-type"@, t@)));
        },
        None => {},
    }
    match key {
        Some(k) => {
            let ghost before = h@;
            h.push((String::from_str("x-api-key"), k.clone()));
            assert(headers_view(h@) =~= headers_view(before).push(("x-api-key"@, k@)));
        },
        None => {},
    }
    h
}

/// Whether the retry loop ends after this event or waits before trying again.
#[derive(Clone, Copy, Debug)]
pub enum RetryStep {
    /// Hand the response or failure to the caller.
    Finish,
    /// Wait this long, then send the request again.
    Wait(Duration),
}

/// The retry state of one request: its method, policy and attempts so far.
pub struct RetryPlan {
    method: Method,
    retry: RetryOptions,
    max_retries: u32,
    attempt: u32,
}

impl RetryPlan {
    #[verifier::type_invariant]
    spec fn inv(self) -> bool {
        self.attempt <= self.max_retries
    }

    /// The method of the request.
    pub closed spec fn method(self) -> Method {
        self.method
    }

    /// The retry policy in force.
    pub closed spec fn policy(self) -> RetryOptions {
        self.retry
    }

    /// Attempts allowed after the first.
    pub closed spec fn max_retries(self) -> u32 {
        self.max_retries
    }

    /// Index of the attempt under way; the first is 0.
    pub closed spec fn attempt(self) -> u32 {
        self.attempt
    }

    /// The plan for a request: the override policy or else the default, validated;
    /// no retries when the options disable them.
    pub fn new(method: Method, options: &RequestOptions, default_retry: &RetryOptions) -> (r: Result<RetryPlan, Error>)
        ensures
            ({
                let policy = match options.retry { Some(p) => p, None => *default_retry };
                &&& r is Ok == retry_valid(policy)
                &&& r matches Ok(p) ==> {
                    &&& p.method() == method
                    &&& p.policy() == policy
                    &&& p.max_retries() == if options.disable_retry { 0 } else { policy.max_retries }
                    &&& p.attempt() == 0
                }
                &&& r matches Err(e) ==> e matches Error::Configuration(_)
            }),
    {
        let retry = match options.retry {
            Some(p) => p,
            None => *default_retry,
        };
        validate_retry(&retry)?;
        let max_retries = if options.disable_retry { 0 } else { retry.max_retries };
        Ok(RetryPlan { method, retry, max_retries, attempt: 0 })
    }

    /// Index of the attempt under way.
    pub fn current_attempt(&self) -> (a: u32)
        ensures
            a == self.attempt(),
            a <= self.max_retries(),
    {
        proof {
            use_type_invariant(self);
        }
        self.attempt
    }

    /// The decision after a response with `status` arrived: finish on the last attempt
    /// or a status that is not retried; otherwise wait for the `Retry-After` time, or
    /// else the backoff delay, and count one more attempt.
    pub fn on_response(&mut self, status: u16, retry_after: Option<Duration>) -> (step: RetryStep)
        ensures
            step is Wait == sends_again(old(self).method(), old(self).attempt() as nat, old(self).max_retries() as nat,
                Outcome::Response(status)),
            final(self).method() == old(self).method(),
            final(self).policy() == old(self).policy(),
            final(self).max_retries() == old(self).max_retries(),
            final(self).attempt() <= final(self).max_retries(),
            (old(self).attempt() == old(self).max_retries()
                || !is_retryable_status(old(self).method(), status)) ==> {
                &&& step is Finish
                &&& final(self).attempt() == old(self).attempt()
            },
            !(old(self).attempt() == old(self).max_retries()
                || !is_retryable_status(old(self).method(), status)) ==> {
                &&& step matches RetryStep::Wait(d) && match retry_after {
                    Some(a) => d == a,
                    None => exists|j: nat| j < jitter_bound(old(self).policy())
                        && d@ == backoff_delay(old(self).attempt(), old(self).policy(), j),
                }
                &&& final(self).attempt() == old(self).attempt() + 1
            },
    {
        proof {
            use_type_invariant(&*self);
        }
        if self.attempt == self.max_retries || !retryable_status(self.method, status) {
            return RetryStep::Finish;
        }
        let ghost prior = *self;
        let delay = match retry_after {
            Some(a) => a,
            None => {
                let d = backoff(self.attempt, &self.retry);
                assert(exists|j: nat| j < jitter_bound(prior.retry) && d@ == backoff_delay(prior.attempt, prior.retry, j));
                d
            },
        };
        self.attempt = self.attempt + 1;
        assert(prior.retry == old(self).policy());
        assert(prior.attempt == old(self).attempt());
        assert(retry_after is None ==> exists|j: nat| j < jitter_bound(old(self).policy()) && delay@ == backoff_delay(old(self).attempt(), old(self).policy(), j));
        RetryStep::Wait(delay)
    }

    /// The decision after the request failed before a response: finish on the last
    /// attempt, for methods that are not idempotent, and after a timeout; otherwise wait
    /// the backoff delay and count one more attempt.
    pub fn on_failure(&mut self, timed_out: bool) -> (step: RetryStep)
        ensures
            step is Wait == sends_again(old(self).method(), old(self).attempt() as nat, old(self).max_retries() as nat,
                Outcome::Failure(timed_out)),
            final(self).method() == old(self).method(),
            final(self).policy() == old(self).policy(),
            final(self).max_retries() == old(self).max_retries(),
            final(self).attempt() <= final(self).max_retries(),
            (old(self).attempt() == old(self).max_retries() || !is_idempotent(old(self).method())
                || timed_out) ==> {
                &&& step is Finish
                &&& final(self).attempt() == old(self).attempt()
            },
            !(old(self).attempt() == old(self).max_retries() || !is_idempotent(old(self).method())
                || timed_out) ==> {
                &&& step matches RetryStep::Wait(d) && exists|j: nat| j < jitter_bound(old(self).policy())
                    && d@ == backoff_delay(old(self).attempt(), old(self).policy(), j)
                &&& final(self).attempt() == old(self).attempt() + 1
            },
    {
        proof {
            use_type_invariant(&*self);
        }
        if self.attempt == self.max_retries || !idempotent(self.method) || timed_out {
            return RetryStep::Finish;
        }
        let delay = backoff(self.attempt, &self.retry);
        let ghost prior = *self;
        self.attempt = self.attempt + 1;
        assert(prior.attempt() == old(self).attempt());
        assert(exists|j: nat| j < jitter_bound(prior.retry) && delay@ == backoff_delay(prior.attempt, prior.retry, j));
        assert(prior.retry == old(self).policy());
        assert(self.attempt == old(self).attempt + 1);
        assert(exists|j: nat| j < jitter_bound(old(self).policy()) && delay@ == backoff_delay(old(self).attempt(), old(self).policy(), j));
        RetryStep::Wait(delay)
    }
}

// ---------------------------------------------------------------------------
// Authentication.

/// The API key a request carries: none for unauthenticated requests, the key for
/// authenticated ones; an authenticated request without a key cannot be sent.
pub open spec fn credential_for(api_key: Option<Seq<char>>, required: bool) -> Result<Option<Seq<char>>, Seq<char>> {
    if !required {
        Ok(None)
    } else {
        match api_key {
            Some(k) => Ok(Some(k)),
            None => Err("authentication is required: configure an API key"@),
        }
    }
}

/// The API key header a request carries: none for unauthenticated requests, the key for
/// authenticated ones; an authenticated request without a key is a configuration error.
pub fn authenticate(api_key: &Option<String>, required: bool) -> (r: Result<Option<String>, Error>)
    ensures
        match (r, credential_for(crate::client::opt_view(*api_key), required)) {
            (Ok(None), Ok(None)) => true,
            (Ok(Some(a)), Ok(Some(b))) => a@ == b,
            (Err(Error::Configuration(m)), Err(w)) => m@ == w,
            _ => false,
        },
        !required ==> r matches Ok(None),
        required && api_key is None ==> (r matches Err(Error::Configuration(m))
            && m@ == "authentication is required: configure an API key"@),
        required && api_key is Some ==> (r matches Ok(Some(k)) && k@ == api_key->0@),
{
    if !required {
        return Ok(None);
    }
    match api_key {
        Some(k) => Ok(Some(k.clone())),
        None => Err(Error::Configuration(String::from_str("authentication is required: configure an API key"))),
    }
}

// ---------------------------------------------------------------------------
// Endpoint URLs.

/// The result of `Url::parse(base)` and then `join(relative)`: the serialized URL, or
/// the parser's error text.
pub uninterp spec fn url_join_result(base: Seq<char>, relative: Seq<char>) -> Result<Seq<char>, Seq<char>>;

/// The result of `Url::parse(url)` and then `query_pairs_mut().extend_pairs(pairs)`:
/// the serialized URL with the pairs form-encoded into its query; none when `url` does
/// not parse.
pub uninterp spec fn url_with_query(url: Seq<char>, pairs: Seq<(Seq<char>, Seq<char>)>) -> Option<Seq<char>>;

/// `url::Url::parse(base)` and `Url::join(relative)`; a URL it returns parses again, so
/// a query can always be added to it.
#[verifier::external_body]
pub(crate) fn url_join(base: &str, relative: &str) -> (r: Result<String, String>)
    ensures
        match (r, url_join_result(base@, relative@)) {
            (Ok(a), Ok(b)) => a@ == b,
            (Err(a), Err(b)) => a@ == b,
            _ => false,
        },
        r matches Ok(u) ==> forall|pairs: Seq<(Seq<char>, Seq<char>)>| #[trigger] url_with_query(u@, pairs) is Some,
{
    match url::Url::parse(base) {
        Ok(b) => match b.join(relative) {
            Ok(u) => Ok(u.to_string()),
            Err(e) => Err(e.to_string()),
        },
        Err(e) => Err(e.to_string()),
    }
}

/// `url::Url::parse(url)` and `query_pairs_mut().extend_pairs(pairs)`: appends the pairs,
/// form-encoded, to the URL's query.
#[verifier::external_body]
pub(crate) fn url_append_query(url: &str, pairs: &Vec<(String, String)>) -> (r: Option<String>)
    ensures
        match (r, url_with_query(url@, headers_view(pairs@))) {
            (Some(a), Some(b)) => a@ == b,
            (None, None) => true,
            _ => false,
        },
{
    match url::Url::parse(url) {
        Ok(mut u) => {
            u.query_pairs_mut().extend_pairs(pairs.iter());
            Some(u.to_string())
        },
        Err(_) => None,
    }
}

/// `s` without its leading `/` characters.
pub open spec fn strip_leading_slashes(s: Seq<char>) -> Seq<char>
    decreases s.len(),
{
    if s.len() > 0 && s[0] == '/' { strip_leading_slashes(s.drop_first()) } else { s }
}

/// `str::trim_start_matches('/')`.
pub fn trim_leading_slashes(s: &str) -> (r: String)
    ensures
        r@ == strip_leading_slashes(s@),
{
    let cs = chars_of(s);
    let mut i: usize = 0;
    assert(cs@.subrange(0, cs@.len() as int) =~= cs@);
    while i < cs.len() && cs[i] == '/'
        invariant
            i <= cs.len(),
            cs@ == s@,
            strip_leading_slashes(s@) == strip_leading_slashes(cs@.subrange(i as int, cs@.len() as int)),
        decreases cs.len() - i,
    {
        let ghost t = cs@.subrange(i as int, cs@.len() as int);
        assert(t.drop_first() =~= cs@.subrange(i + 1, cs@.len() as int));
        i += 1;
    }
    string_from_range(&cs, i, cs.len())
}

/// The URL of an endpoint: `path` without leading slashes, joined to the base URL, and
/// then the query pairs when there are any.
pub open spec fn endpoint_url(base: Seq<char>, path: Seq<char>, query: Seq<(Seq<char>, Seq<char>)>)
    -> Result<Seq<char>, Seq<char>> {
    match url_join_result(base, strip_leading_slashes(path)) {
        Ok(u) => if query.len() == 0 { Ok(u) } else { Ok(url_with_query(u, query)->0) },
        Err(e) => Err("invalid endpoint URL: "@ + e),
    }
}

// ---------------------------------------------------------------------------
// The JSend envelope.

/// `u8::is_ascii_whitespace`: space, tab, line feed, form feed or carriage return.
pub open spec fn ascii_space(b: u8) -> bool {
    b == 0x20 || b == 0x09 || b == 0x0A || b == 0x0C || b == 0x0D
}

/// Whether every byte is ASCII white space.
pub fn all_ascii_space(bytes: &[u8]) -> (r: bool)
    ensures
        r == forall|i: int| 0 <= i < bytes.len() ==> ascii_space(#[trigger] bytes@[i]),
{
    let mut i: usize = 0;
    while i < bytes.len()
        invariant
            i <= bytes.len(),
            forall|j: int| 0 <= j < i ==> ascii_space(#[trigger] bytes@[j]),
        decreases bytes.len() - i,
    {
        let b = bytes[i];
        if !(b == 0x20 || b == 0x09 || b == 0x0A || b == 0x0C || b == 0x0D) {
            return false;
        }
        i += 1;
    }
    true
}

/// How `{:?}` prints a string: quoted, with escapes.
pub uninterp spec fn debug_quoted(s: Seq<char>) -> Seq<char>;

/// `format!("{:?}", s)`: the string quoted and escaped as Rust's `Debug` prints it.
#[verifier::external_body]
pub(crate) fn debug_quote(s: &str) -> (r: String)
    ensures
        r@ == debug_quoted(s@),
{
    format!("{:?}", s)
}

/// The message when the envelope is neither an object nor an array.
pub open spec fn not_an_envelope() -> Seq<char> {
    "invalid type: expected a JSend envelope object"@
}

/// What an envelope given as an array should hold.
pub open spec fn envelope_shape() -> Seq<char> {
    "struct Envelope with 3 elements"@
}

/// The members of a JSend envelope: `status`, `data` and `message`, or why they are
/// malformed. The envelope is an object, or an array of exactly those three in order. A
/// missing or `null` `data` is `null`; an object may leave out `message`. A member given
/// twice counts with its last value, and errors use the library's own messages (see
/// [`crate::json::invalid_member`]).
pub open spec fn envelope_members(v: Json) -> Result<(Seq<char>, Json, Option<Seq<char>>), Seq<char>> {
    if !(v is Object || v is Array) {
        Err(not_an_envelope())
    } else {
        match v.required_string(0, "status"@, envelope_shape()) {
            Err(e) => Err(e),
            Ok(status) => if v is Array && v.field(1, "data"@) is None {
                Err(v.absent("data"@, envelope_shape()))
            } else {
                match v.optional_string(2, "message"@, envelope_shape()) {
                    Err(e) => Err(e),
                    Ok(message) => if v.longer_than(3) {
                        Err(trailing_characters())
                    } else {
                        Ok((status, match v.field(1, "data"@) {
                            Some(d) => d,
                            None => Json::Null,
                        }, message))
                    },
                }
            },
        }
    }
}

/// What a successful HTTP response means under JSend: `null` for an empty 204 or 205;
/// otherwise the envelope's `data` when its `status` is `success`; the envelope's
/// `message` (or a note on the unexpected status) when it is not; a decoding failure
/// when the body is no envelope.
pub open spec fn jsend_outcome(method: Method, path: Seq<char>, status: u16, body: Seq<u8>) -> Result<Json, Seq<char>> {
    let prefix = "decode "@ + method_name(method) + " "@ + path + " JSend envelope: "@;
    if (forall|i: int| 0 <= i < body.len() ==> ascii_space(#[trigger] body[i])) && (status == 204 || status == 205) {
        Ok(Json::Null)
    } else {
        match json_parse(body) {
            Err(e) => Err(prefix + e),
            Ok(v) => match envelope_members(v) {
                Err(e) => Err(prefix + e),
                Ok((st, data, message)) => if st == "success"@ {
                    Ok(data)
                } else {
                    match message {
                        Some(m) => Err(m),
                        None => Err("unexpected JSend status "@ + debug_quoted(st)),
                    }
                },
            },
        }
    }
}

/// Whether an HTTP status is a success: 200 to 299.
pub open spec fn is_success(status: u16) -> bool {
    200 <= status <= 299
}

/// Whether an HTTP status is a success.
pub fn status_is_success(status: u16) -> (b: bool)
    ensures
        b == is_success(status),
{
    200 <= status && status <= 299
}

/// The error of a failed response; see [`ApiError::from_parts`].
pub fn response_failure(method: Method, endpoint: &str, status: u16, request_id: Option<String>,
    headers: Vec<(String, String)>, body: Vec<u8>) -> (e: Error)
    ensures
        e matches Error::Api(a) && reports_failure(a, method, endpoint@, status, request_id, headers, body@),
{
    Error::Api(ApiError::from_parts(method, endpoint, status, request_id, headers, body))
}

/// The outcome of a call whose reply carries no JSON (an upload, a download, a stream):
/// success for a 2xx status, else the API error of the response.
pub fn check_status(method: Method, endpoint: &str, status: u16, request_id: Option<String>,
    headers: Vec<(String, String)>, body: Vec<u8>) -> (r: Result<(), Error>)
    ensures
        r is Ok == is_success(status),
        r matches Err(e) ==> e matches Error::Api(a)
            && reports_failure(a, method, endpoint@, status, request_id, headers, body@),
{
    if status_is_success(status) {
        Ok(())
    } else {
        Err(response_failure(method, endpoint, status, request_id, headers, body))
    }
}

/// The outcome of a JSON call from its final response: the API error of the response for
/// a status outside 2xx; otherwise what the body means under JSend (see [`jsend_outcome`]).
pub fn json_response(method: Method, endpoint: &str, status: u16, request_id: Option<String>,
    headers: Vec<(String, String)>, body: Vec<u8>) -> (r: Result<JsonValue, Error>)
    ensures
        !is_success(status) ==> (r matches Err(e) && e matches Error::Api(a)
            && reports_failure(a, method, endpoint@, status, request_id, headers, body@)),
        is_success(status) ==> match (r, jsend_outcome(method, endpoint@, status, body@)) {
            (Ok(v), Ok(w)) => v@ == w,
            (Err(Error::Protocol(m)), Err(w)) => m@ == w,
            _ => false,
        },
{
    if status_is_success(status) {
        decode_envelope(method, endpoint, status, body.as_slice())
    } else {
        Err(response_failure(method, endpoint, status, request_id, headers, body))
    }
}

/// Decodes the body of a successful response as a JSend envelope; see [`jsend_outcome`].
/// Failures are protocol errors.
pub fn decode_envelope(method: Method, path: &str, status: u16, body: &[u8]) -> (r: Result<JsonValue, Error>)
    ensures
        match (r, jsend_outcome(method, path@, status, body@)) {
            (Ok(v), Ok(w)) => v@ == w,
            (Err(Error::Protocol(m)), Err(w)) => m@ == w,
            _ => false,
        },
{
    if all_ascii_space(body) && (status == 204 || status == 205) {
        return Ok(JsonValue::Null);
    }
    let mut prefix = String::from_str("decode ");
    prefix.append(method.as_str());
    prefix.append(" ");
    prefix.append(path);
    prefix.append(" JSend envelope: ");
    let value = match parse_json(body) {
        Ok(v) => v,
        Err(e) => {
            prefix.append(e.as_str());
            return Err(Error::Protocol(prefix));
        },
    };
    if !(value.is_object() || value.is_array()) {
        prefix.append("invalid type: expected a JSend envelope object");
        return Err(Error::Protocol(prefix));
    }
    let shape = "struct Envelope with 3 elements";
    proof {
        reveal_strlit("struct Envelope with 3 elements");
    }
    let st = match value.required_string(0, "status", shape) {
        Ok(s) => s,
        Err(e) => {
            prefix.append(e.as_str());
            return Err(Error::Protocol(prefix));
        },
    };
    if value.is_array() && value.field(1, "data").is_none() {
        let e = value.absent("data", shape);
        prefix.append(e.as_str());
        return Err(Error::Protocol(prefix));
    }
    let message = match value.optional_string(2, "message", shape) {
        Ok(m) => m,
        Err(e) => {
            prefix.append(e.as_str());
            return Err(Error::Protocol(prefix));
        },
    };
    if value.longer_than(3) {
        prefix.append("trailing characters");
        return Err(Error::Protocol(prefix));
    }
    if str_eq(st.as_str(), "success") {
        match value.take_field(1, "data") {
            Some(d) => Ok(d),
            None => Ok(JsonValue::Null),
        }
    } else {
        match message {
            Some(m) => Err(Error::Protocol(m)),
            None => {
                let mut m = String::from_str("unexpected JSend status ");
                let q = debug_quote(st.as_str());
                m.append(q.as_str());
                Err(Error::Protocol(m))
            },
        }
    }
}

// ---------------------------------------------------------------------------
// Client configuration shared by every request.

/// The validated configuration every request of a client uses.
#[derive(Debug)]
pub struct Transport {
    /// Control-plane URL, ending in `/`.
    pub base_url: String,
    /// API key sent as `X-Api-Key` on authenticated requests.
    pub api_key: Option<String>,
    /// Default complete-request timeout.
    pub timeout: Duration,
    /// Default retry policy.
    pub retry: RetryOptions,
    /// User agent of every request.
    pub user_agent: String,
}

impl Transport {
    /// A copy of the configuration.
    pub fn duplicate(&self) -> (t: Transport)
        ensures
            t == *self,
    {
        Transport {
            base_url: self.base_url.clone(),
            api_key: match &self.api_key {
                Some(k) => Some(k.clone()),
                None => None,
            },
            timeout: self.timeout,
            retry: self.retry,
            user_agent: self.user_agent.clone(),
        }
    }

    /// The same configuration with another credential.
    pub fn with_api_key(&self, api_key: String) -> (t: Transport)
        ensures
            t.base_url@ == self.base_url@,
            t.api_key matches Some(k) && k@ == api_key@,
            t.timeout == self.timeout,
            t.retry == self.retry,
            t.user_agent@ == self.user_agent@,
    {
        Transport {
            base_url: self.base_url.clone(),
            api_key: Some(api_key),
            timeout: self.timeout,
            retry: self.retry,
            user_agent: self.user_agent.clone(),
        }
    }

    /// The complete-request timeout of a request: the override, else the default.
    pub fn request_timeout(&self, options: &RequestOptions) -> (d: Duration)
        ensures
            d == match options.timeout { Some(t) => t, None => self.timeout },
    {
        match options.timeout {
            Some(t) => t,
            None => self.timeout,
        }
    }

    /// The API key header of a request; see [`authenticate`].
    pub fn credential(&self, required: bool) -> (r: Result<Option<String>, Error>)
        ensures
            !required ==> r matches Ok(None),
            required && self.api_key is None ==> (r matches Err(Error::Configuration(m))
                && m@ == "authentication is required: configure an API key"@),
            required && self.api_key is Some ==> (r matches Ok(Some(k)) && k@ == self.api_key->0@),
    {
        authenticate(&self.api_key, required)
    }

    /// The retry plan of a request; see [`RetryPlan::new`].
    pub fn plan(&self, method: Method, options: &RequestOptions) -> (r: Result<RetryPlan, Error>)
        ensures
            ({
                let policy = match options.retry { Some(p) => p, None => self.retry };
                &&& r is Ok == retry_valid(policy)
                &&& r matches Ok(p) ==> {
                    &&& p.method() == method
                    &&& p.policy() == policy
                    &&& p.max_retries() == if options.disable_retry { 0 } else { policy.max_retries }
                    &&& p.attempt() == 0
                }
                &&& r matches Err(e) ==> e matches Error::Configuration(_)
            }),
    {
        RetryPlan::new(method, options, &self.retry)
    }

    /// The URL of an endpoint; see [`endpoint_url`]. A URL that cannot be formed is a
    /// configuration error.
    pub fn url(&self, path: &str, query: &Vec<(String, String)>) -> (r: Result<String, Error>)
        ensures
            match (r, endpoint_url(self.base_url@, path@, headers_view(query@))) {
                (Ok(u), Ok(w)) => u@ == w,
                (Err(Error::Configuration(m)), Err(w)) => m@ == w,
                _ => false,
            },
    {
        let relative = trim_leading_slashes(path);
        let joined = match url_join(self.base_url.as_str(), relative.as_str()) {
            Ok(u) => u,
            Err(e) => {
                let mut m = String::from_str("invalid endpoint URL: ");
                m.append(e.as_str());
                return Err(Error::Configuration(m));
            },
        };
        if query.len() == 0 {
            return Ok(joined);
        }
        assert(url_with_query(joined@, headers_view(query@)) is Some);
        match url_append_query(joined.as_str(), query) {
            Some(u) => Ok(u),
            None => Ok(joined),
        }
    }
}

// ---------------------------------------------------------------------------
// Parsed URLs.

/// The parts of a parsed URL that this library inspects.
#[derive(Clone, Debug)]
pub struct ParsedUrl {
    /// The URL as the parser serializes it.
    pub serialization: String,
    /// The scheme, such as `https`.
    pub scheme: String,
    /// Whether the URL has a host.
    pub has_host: bool,
    /// The user name; empty when there is none.
    pub username: String,
    /// Whether the URL has a password.
    pub has_password: bool,
    /// Whether the URL has a query.
    pub has_query: bool,
    /// Whether the URL has a fragment.
    pub has_fragment: bool,
}

/// The content of a [`ParsedUrl`].
pub struct UrlParts {
    pub serialization: Seq<char>,
    pub scheme: Seq<char>,
    pub has_host: bool,
    pub username: Seq<char>,
    pub has_password: bool,
    pub has_query: bool,
    pub has_fragment: bool,
}

impl View for ParsedUrl {
    type V = UrlParts;

    open spec fn view(&self) -> UrlParts {
        UrlParts {
            serialization: self.serialization@,
            scheme: self.scheme@,
            has_host: self.has_host,
            username: self.username@,
            has_password: self.has_password,
            has_query: self.has_query,
            has_fragment: self.has_fragment,
        }
    }
}

/// The result of `url::Url::parse(s)`: the parts of the URL, or the parser's error text.
pub uninterp spec fn url_parse_result(s: Seq<char>) -> Result<UrlParts, Seq<char>>;

/// `url::Url::parse(s)`, with the serialization, scheme, host, user name, password,
/// query and fragment of the result read off it.
#[verifier::external_body]
pub(crate) fn parse_url(s: &str) -> (r: Result<ParsedUrl, String>)
    ensures
        match (r, url_parse_result(s@)) {
            (Ok(a), Ok(b)) => a@ == b,
            (Err(a), Err(b)) => a@ == b,
            _ => false,
        },
{
    match url::Url::parse(s) {
        Ok(u) => Ok(ParsedUrl {
            serialization: u.as_str().to_owned(),
            scheme: u.scheme().to_owned(),
            has_host: u.host_str().is_some(),
            username: u.username().to_owned(),
            has_password: u.password().is_some(),
            has_query: u.query().is_some(),
            has_fragment: u.fragment().is_some(),
        }),
        Err(e) => Err(e.to_string()),
    }
}

} // verus!
