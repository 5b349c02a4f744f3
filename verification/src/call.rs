//! Planned API calls: the method, endpoint, query, body and transport options of one
//! request, and of a walk over the pages of a list endpoint.

use vstd::prelude::*;
use crate::json::{Json, JsonValue, ObjectBuilder};
use crate::text::{percent_encode_bytes, u64_to_decimal, decimal};
use crate::transport::{Method, RequestOptions, headers_view};

verus! {

/// One request to send, as the library plans it.
#[derive(Debug)]
pub struct ApiRequest {
    /// HTTP method.
    pub method: Method,
    /// Endpoint path below the control-plane URL.
    pub path: String,
    /// Query pairs, in order.
    pub query: Vec<(String, String)>,
    /// JSON request body, when the request has one.
    pub body: Option<JsonValue>,
    /// Whether the request carries the API key.
    pub authenticated: bool,
    /// Transport overrides.
    pub options: RequestOptions,
}

/// The content of a planned request.
pub struct Call {
    pub method: Method,
    pub path: Seq<char>,
    pub query: Seq<(Seq<char>, Seq<char>)>,
    pub body: Option<Json>,
    pub authenticated: bool,
}

/// The content of an optional JSON body.
pub open spec fn body_view(b: Option<JsonValue>) -> Option<Json> {
    match b {
        Some(v) => Some(v@),
        None => None,
    }
}

impl View for ApiRequest {
    type V = Call;

    open spec fn view(&self) -> Call {
        Call {
            method: self.method,
            path: self.path@,
            query: headers_view(self.query@),
            body: body_view(self.body),
            authenticated: self.authenticated,
        }
    }
}

/// A walk over the pages of a list endpoint.
#[derive(Debug)]
pub struct PagedRequest {
    /// Endpoint path below the control-plane URL.
    pub path: String,
    /// Query pairs of every page besides `limit` and `offset`; an `offset` pair here
    /// gives the first offset.
    pub query: Vec<(String, String)>,
    /// Maximum number of items; `None` walks every page.
    pub limit: Option<usize>,
    /// Member that holds the items in older response shapes.
    pub legacy_key: Option<String>,
    /// Whether the requests carry the API key.
    pub authenticated: bool,
    /// Transport overrides of every page.
    pub options: RequestOptions,
}

/// The content of a planned page walk.
pub struct PagedCall {
    pub path: Seq<char>,
    pub query: Seq<(Seq<char>, Seq<char>)>,
    pub limit: Option<usize>,
    pub legacy_key: Option<Seq<char>>,
    pub authenticated: bool,
}

impl View for PagedRequest {
    type V = PagedCall;

    open spec fn view(&self) -> PagedCall {
        PagedCall {
            path: self.path@,
            query: headers_view(self.query@),
            limit: self.limit,
            legacy_key: match self.legacy_key { Some(k) => Some(k@), None => None },
            authenticated: self.authenticated,
        }
    }
}

/// Options without headers or overrides.
pub open spec fn plain_options(o: RequestOptions) -> bool {
    o.headers@.len() == 0 && o.timeout is None && o.retry is None && !o.disable_retry
}

/// Two sets of options that hold the same values.
pub open spec fn same_options(a: RequestOptions, b: RequestOptions) -> bool {
    headers_view(a.headers@) == headers_view(b.headers@) && a.timeout == b.timeout && a.retry == b.retry
        && a.disable_retry == b.disable_retry
}

/// A copy of a set of options.
pub fn copy_options(o: &RequestOptions) -> (r: RequestOptions)
    ensures
        same_options(r, *o),
{
    RequestOptions {
        headers: crate::transport::copy_headers(&o.headers),
        timeout: o.timeout,
        retry: o.retry,
        disable_retry: o.disable_retry,
    }
}

/// `value` as one percent-encoded path segment.
pub open spec fn encoded(value: Seq<char>) -> Seq<char> {
    percent_encode_bytes(vstd::utf8::encode_utf8(value))
}

/// A request with the default transport options.
pub fn plain(method: Method, path: String, query: Vec<(String, String)>, body: Option<JsonValue>, authenticated: bool)
    -> (r: ApiRequest)
    ensures
        r@ == (Call { method, path: path@, query: headers_view(query@), body: body_view(body), authenticated }),
        plain_options(r.options),
{
    ApiRequest { method, path, query, body, authenticated, options: RequestOptions::default() }
}

/// An authenticated request.
pub fn authed(method: Method, path: String, query: Vec<(String, String)>, body: Option<JsonValue>,
    options: RequestOptions) -> (r: ApiRequest)
    ensures
        r@ == (Call { method, path: path@, query: headers_view(query@), body: body_view(body), authenticated: true }),
        r.options == options,
{
    ApiRequest { method, path, query, body, authenticated: true, options }
}

/// No query pairs.
pub fn no_query() -> (q: Vec<(String, String)>)
    ensures
        headers_view(q@) == Seq::<(Seq<char>, Seq<char>)>::empty(),
{
    let q: Vec<(String, String)> = Vec::new();
    assert(headers_view(q@) =~= Seq::<(Seq<char>, Seq<char>)>::empty());
    q
}

/// The query of a list that starts at `offset`: none for 0, else one `offset` pair.
pub open spec fn offset_pairs(offset: usize) -> Seq<(Seq<char>, Seq<char>)> {
    if offset == 0 { seq![] } else { seq![("offset"@, decimal(offset as nat))] }
}

/// The query of a list that starts at `offset`.
pub fn offset_query(offset: usize) -> (q: Vec<(String, String)>)
    ensures
        headers_view(q@) == offset_pairs(offset),
{
    let mut q: Vec<(String, String)> = Vec::new();
    if offset != 0 {
        q.push((String::from_str("offset"), u64_to_decimal(offset as u64)));
        assert(headers_view(q@) =~= offset_pairs(offset));
    } else {
        assert(headers_view(q@) =~= offset_pairs(offset));
    }
    q
}

/// The query of a template-log request: one `attempt` pair when an attempt is given.
pub fn attempt_query(attempt: Option<u32>) -> (q: Vec<(String, String)>)
    ensures
        headers_view(q@) == match attempt {
            Some(a) => seq![("attempt"@, decimal(a as nat))],
            None => seq![],
        },
{
    let mut q: Vec<(String, String)> = Vec::new();
    match attempt {
        Some(a) => {
            q.push((String::from_str("attempt"), u64_to_decimal(a as u64)));
        },
        None => {},
    }
    assert(headers_view(q@) =~= match attempt {
        Some(a) => seq![("attempt"@, decimal(a as nat))],
        None => seq![],
    });
    q
}

/// Appends `key` and the text of `value` to a query when a value is given.
pub fn add_opt(query: &mut Vec<(String, String)>, key: &str, value: Option<String>)
    ensures
        headers_view(final(query)@) == match value {
            Some(v) => headers_view(old(query)@).push((key@, v@)),
            None => headers_view(old(query)@),
        },
{
    match value {
        Some(v) => {
            let ghost before = query@;
            let k = key.to_owned();
            query.push((k, v));
            assert(headers_view(query@) =~= headers_view(before).push((key@, v@)));
        },
        None => {},
    }
}

/// An object with one member.
pub fn object1(key: &str, value: JsonValue) -> (v: JsonValue)
    ensures
        v@ == Json::Object(seq![(key@, value@)]),
{
    let mut b = ObjectBuilder::new();
    b.member(key, value);
    let v = b.build();
    assert(v@ == Json::Object(seq![(key@, value@)])) by {
        assert(Seq::<(Seq<char>, Json)>::empty().push((key@, value@)) =~= seq![(key@, value@)]);
    }
    v
}

/// Whether an integer is zero.
pub fn is_zero(value: i64) -> (b: bool)
    ensures
        b == (value == 0),
{
    value == 0
}

} // verus!
