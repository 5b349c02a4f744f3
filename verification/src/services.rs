//! Operations grouped by resource: files, processes, templates, networks, disks and the
//! desktop of a sandbox. Each operation plans the request it sends.

use vstd::prelude::*;
use crate::call::{ApiRequest, Call, PagedRequest, PagedCall, authed, copy_options, encoded, no_query, object1,
    offset_pairs, offset_query, same_options, plain_options, attempt_query, add_opt};
use crate::client::encode;
use crate::instance::{Instance, sandbox_path};
use crate::json::{Json, JsonValue, str_array, strings_view};
use crate::options::{ComputerListWindowsOptions, ComputerScreenOptions, ComputerScreenshotOptions,
    GetTemplateOptions, ManagedProcessConnectOptions, ManagedProcessDeleteOptions, ManagedProcessWaitOptions,
    PaginationOptions, TemplateLogsOptions};
use crate::requests::{ComputerButtonRequest, ComputerClickRequest, ComputerCreateScreenRequest, ComputerDragRequest,
    ComputerLaunchRequest, ComputerOpenRequest, ComputerPoint, ComputerScrollRequest, ComputerTypeRequest,
    ComputerWindowMoveRequest, ComputerWindowResizeRequest, DiskCreateRequest, DiskCredentials,
    ManagedProcessCreateRequest, NetworkCreateRequest, PtySize, TemplateCreateRequest};
use crate::stream::{base64_encode, base64_encoded};
use crate::text::{decimal, signed_decimal, i64_to_decimal, u64_to_decimal, u128_to_decimal};
use crate::transport::{Method, RequestOptions, headers_view};
use crate::wire::{ComputerScreenId, ManagedProcessSignal};
use vstd::string::StringSliceAdditionalSpecFns;

verus! {

// ---------------------------------------------------------------------------
// Paths and queries.

/// The path of an item of a collection below `base`, followed by `suffix`.
pub open spec fn item_path(base: Seq<char>, collection: Seq<char>, id: Seq<char>, suffix: Seq<char>) -> Seq<char> {
    base + collection + "/"@ + encoded(id) + suffix
}

/// `base` followed by `suffix`.
fn joined(base: &str, suffix: &str) -> (r: String)
    ensures
        r@ == base@ + suffix@,
{
    let mut p = base.to_owned();
    p.append(suffix);
    p
}

/// The path of an item of a collection below `base`, followed by `suffix`.
fn item_path_of(base: &str, collection: &str, id: &str, suffix: &str) -> (r: String)
    ensures
        r@ == item_path(base@, collection@, id@, suffix@),
{
    let mut p = base.to_owned();
    p.append(collection);
    p.append("/");
    let e = encode(id);
    p.append(e.as_str());
    p.append(suffix);
    p
}

/// The query that selects a screen: one `screen_id` pair when a screen is given.
pub open spec fn screen_pairs(id: Option<ComputerScreenId>) -> Seq<(Seq<char>, Seq<char>)> {
    match id {
        Some(s) => seq![("screen_id"@, s.0@)],
        None => seq![],
    }
}

/// The query that selects a screen.
pub fn screen_query(id: &Option<ComputerScreenId>) -> (q: Vec<(String, String)>)
    ensures
        headers_view(q@) == screen_pairs(*id),
{
    let mut q: Vec<(String, String)> = Vec::new();
    match id {
        Some(s) => {
            q.push((String::from_str("screen_id"), s.0.clone()));
        },
        None => {},
    }
    assert(headers_view(q@) =~= screen_pairs(*id));
    q
}

/// Text of an optional signed integer.
pub open spec fn opt_signed(v: Option<i32>) -> Option<Seq<char>> {
    match v {
        Some(x) => Some(signed_decimal(x as int)),
        None => None,
    }
}

/// Text of an optional unsigned integer.
pub open spec fn opt_unsigned(v: Option<u32>) -> Option<Seq<char>> {
    match v {
        Some(x) => Some(decimal(x as nat)),
        None => None,
    }
}

/// Pairs with a value, in order.
pub open spec fn present(pairs: Seq<(Seq<char>, Option<Seq<char>>)>) -> Seq<(Seq<char>, Seq<char>)>
    decreases pairs.len(),
{
    if pairs.len() == 0 {
        seq![]
    } else {
        let rest = present(pairs.drop_last());
        match pairs.last().1 {
            Some(v) => rest.push((pairs.last().0, v)),
            None => rest,
        }
    }
}

/// The optional query pairs of a process wait: the scope, then the long-poll time in
/// milliseconds.
pub open spec fn wait_pairs(options: ManagedProcessWaitOptions) -> Seq<(Seq<char>, Option<Seq<char>>)> {
    seq![
        ("scope"@, match options.scope { Some(s) => Some(s.0@), None => None }),
        ("timeout_ms"@, match options.wait_timeout { Some(t) => Some(decimal(t@ / 1_000_000)), None => None }),
    ]
}

/// The optional query pairs of a screenshot: window, crop origin and crop size.
pub open spec fn screenshot_pairs(options: ComputerScreenshotOptions) -> Seq<(Seq<char>, Option<Seq<char>>)> {
    seq![
        ("window_id"@, crate::client::opt_view(options.window_id)),
        ("x"@, opt_signed(options.x)),
        ("y"@, opt_signed(options.y)),
        ("width"@, opt_unsigned(options.width)),
        ("height"@, opt_unsigned(options.height)),
    ]
}

fn signed_text(v: Option<i32>) -> (r: Option<String>)
    ensures
        crate::client::opt_view(r) == opt_signed(v),
{
    match v {
        Some(x) => Some(i64_to_decimal(x as i64)),
        None => None,
    }
}

fn unsigned_text(v: Option<u32>) -> (r: Option<String>)
    ensures
        crate::client::opt_view(r) == opt_unsigned(v),
{
    match v {
        Some(x) => Some(u64_to_decimal(x as u64)),
        None => None,
    }
}

// ---------------------------------------------------------------------------
// Files.

/// File-transfer operations for one sandbox.
#[derive(Debug)]
pub struct FilesService {
    sandbox: String,
}

impl FilesService {
    /// The sandbox's endpoint path.
    pub closed spec fn base(self) -> Seq<char> {
        self.sandbox@
    }

    /// Uploads bytes to an absolute sandbox path: `PUT /files?path=...`, the bytes as the
    /// body. Uploads are sent once, never retried.
    pub fn upload(&self, path: &str, options: &RequestOptions) -> (r: ApiRequest)
        ensures
            r@ == (Call { method: Method::Put, path: self.base() + "/files"@, query: seq![("path"@, path@)],
                body: None, authenticated: true }),
            headers_view(r.options.headers@) == headers_view(options.headers@),
            r.options.timeout == options.timeout,
            r.options.retry == options.retry,
            r.options.disable_retry,
    {
        let mut query: Vec<(String, String)> = Vec::new();
        query.push((String::from_str("path"), path.to_owned()));
        assert(headers_view(query@) =~= seq![("path"@, path@)]);
        authed(Method::Put, joined(self.sandbox.as_str(), "/files"), query, None, options.without_retry())
    }

    /// Opens a file download: `GET /files?path=...`.
    pub fn download(&self, path: &str, options: &RequestOptions) -> (r: ApiRequest)
        ensures
            r@ == (Call { method: Method::Get, path: self.base() + "/files"@, query: seq![("path"@, path@)],
                body: None, authenticated: true }),
            same_options(r.options, *options),
    {
        let mut query: Vec<(String, String)> = Vec::new();
        query.push((String::from_str("path"), path.to_owned()));
        assert(headers_view(query@) =~= seq![("path"@, path@)]);
        authed(Method::Get, joined(self.sandbox.as_str(), "/files"), query, None, copy_options(options))
    }
}

// ---------------------------------------------------------------------------
// Managed processes.

/// Managed process and PTY operations.
#[derive(Debug)]
pub struct ProcessesService {
    sandbox: String,
}

impl ProcessesService {
    /// The sandbox's endpoint path.
    pub closed spec fn base(self) -> Seq<char> {
        self.sandbox@
    }

    /// The path of one process followed by `suffix`.
    pub open spec fn process_path(self, id: Seq<char>, suffix: Seq<char>) -> Seq<char> {
        item_path(self.base(), "/processes"@, id, suffix)
    }

    fn item(&self, id: &str, suffix: &str) -> (r: String)
        ensures
            r@ == self.process_path(id@, suffix@),
    {
        item_path_of(self.sandbox.as_str(), "/processes", id, suffix)
    }

    fn post(&self, id: &str, suffix: &str, body: JsonValue) -> (r: ApiRequest)
        ensures
            r@ == (Call { method: Method::Post, path: self.process_path(id@, suffix@), query: seq![],
                body: Some(body@), authenticated: true }),
            plain_options(r.options),
    {
        authed(Method::Post, self.item(id, suffix), no_query(), Some(body), RequestOptions::default())
    }

    /// Starts a persistent process or PTY: `POST /processes`.
    pub fn create(&self, request: &ManagedProcessCreateRequest) -> (r: ApiRequest)
        ensures
            r@ == (Call { method: Method::Post, path: self.base() + "/processes"@, query: seq![],
                body: Some(request.wire()), authenticated: true }),
            plain_options(r.options),
    {
        authed(Method::Post, joined(self.sandbox.as_str(), "/processes"), no_query(), Some(request.to_json()),
            RequestOptions::default())
    }

    /// Lists retained processes: `GET /processes`.
    pub fn list(&self) -> (r: ApiRequest)
        ensures
            r@ == (Call { method: Method::Get, path: self.base() + "/processes"@, query: seq![], body: None,
                authenticated: true }),
            plain_options(r.options),
    {
        authed(Method::Get, joined(self.sandbox.as_str(), "/processes"), no_query(), None, RequestOptions::default())
    }

    /// Gets one process: `GET /processes/{id}`.
    pub fn get(&self, id: &str) -> (r: ApiRequest)
        ensures
            r@ == (Call { method: Method::Get, path: self.process_path(id@, ""@), query: seq![], body: None,
                authenticated: true }),
            plain_options(r.options),
    {
        authed(Method::Get, self.item(id, ""), no_query(), None, RequestOptions::default())
    }

    /// Opens a replayable output stream after a sequence: `GET /processes/{id}/connect`;
    /// never retried.
    pub fn connect(&self, id: &str, options: &ManagedProcessConnectOptions) -> (r: ApiRequest)
        ensures
            r@ == (Call { method: Method::Get, path: self.process_path(id@, "/connect"@),
                query: seq![("after"@, signed_decimal(options.after_sequence as int))], body: None,
                authenticated: true }),
            headers_view(r.options.headers@) == headers_view(options.request.headers@),
            r.options.timeout == options.request.timeout,
            r.options.retry == options.request.retry,
            r.options.disable_retry,
    {
        let mut query: Vec<(String, String)> = Vec::new();
        query.push((String::from_str("after"), i64_to_decimal(options.after_sequence)));
        assert(headers_view(query@) =~= seq![("after"@, signed_decimal(options.after_sequence as int))]);
        authed(Method::Get, self.item(id, "/connect"), query, None, options.request.without_retry())
    }

    /// Writes UTF-8 input; see [`ProcessesService::input_bytes`].
    pub fn input(&self, id: &str, data: &str) -> (r: ApiRequest)
        ensures
            r@ == (Call { method: Method::Post, path: self.process_path(id@, "/input"@), query: seq![],
                body: Some(Json::Object(seq![("data_base64"@, Json::Str(base64_encoded(data.spec_bytes())))])),
                authenticated: true }),
            plain_options(r.options),
    {
        self.input_bytes(id, data.as_bytes())
    }

    /// Writes binary input: `POST /processes/{id}/input` with the bytes in base64.
    pub fn input_bytes(&self, id: &str, data: &[u8]) -> (r: ApiRequest)
        ensures
            r@ == (Call { method: Method::Post, path: self.process_path(id@, "/input"@), query: seq![],
                body: Some(Json::Object(seq![("data_base64"@, Json::Str(base64_encoded(data@)))])),
                authenticated: true }),
            plain_options(r.options),
    {
        let text = base64_encode(data);
        self.post(id, "/input", object1("data_base64", JsonValue::from_string(text)))
    }

    /// Closes a pipe process's standard input: `POST /processes/{id}/stdin/close`.
    pub fn close_stdin(&self, id: &str) -> (r: ApiRequest)
        ensures
            r@ == (Call { method: Method::Post, path: self.process_path(id@, "/stdin/close"@), query: seq![],
                body: Some(Json::Null), authenticated: true }),
            plain_options(r.options),
    {
        self.post(id, "/stdin/close", JsonValue::Null)
    }

    /// Resizes a PTY: `POST /processes/{id}/resize`.
    pub fn resize(&self, id: &str, size: &PtySize) -> (r: ApiRequest)
        ensures
            r@ == (Call { method: Method::Post, path: self.process_path(id@, "/resize"@), query: seq![],
                body: Some(size.wire()), authenticated: true }),
            plain_options(r.options),
    {
        self.post(id, "/resize", size.to_json())
    }

    /// Sends a signal: `POST /processes/{id}/signal`.
    pub fn signal(&self, id: &str, signal: &ManagedProcessSignal) -> (r: ApiRequest)
        ensures
            r@ == (Call { method: Method::Post, path: self.process_path(id@, "/signal"@), query: seq![],
                body: Some(Json::Object(seq![("signal"@, Json::Str(signal.0@))])), authenticated: true }),
            plain_options(r.options),
    {
        self.post(id, "/signal", object1("signal", JsonValue::from_str(signal.as_str())))
    }

    /// Long-polls until a leader or process tree exits: `GET /processes/{id}/wait` with
    /// the scope and the long-poll time in milliseconds when given.
    pub fn wait(&self, id: &str, options: &ManagedProcessWaitOptions) -> (r: ApiRequest)
        ensures
            r@ == (Call { method: Method::Get, path: self.process_path(id@, "/wait"@),
                query: present(wait_pairs(*options)),
                body: None, authenticated: true }),
            same_options(r.options, options.request),
    {
        let mut query: Vec<(String, String)> = Vec::new();
        let ghost start = headers_view(query@);
        let scope = match &options.scope {
            Some(s) => Some(s.0.clone()),
            None => None,
        };
        add_opt(&mut query, "scope", scope);
        let millis = match options.wait_timeout {
            Some(t) => Some(u128_to_decimal(t.as_millis())),
            None => None,
        };
        add_opt(&mut query, "timeout_ms", millis);
        let ghost pairs = wait_pairs(*options);
        proof {
            let p1 = pairs.take(1);
            assert(p1.drop_last() =~= Seq::<(Seq<char>, Option<Seq<char>>)>::empty());
            assert(pairs.drop_last() =~= p1);
            assert(start + present(p1.drop_last()) =~= start);
            lemma_present_prefix(start, p1);
            lemma_present_prefix(start, pairs);
            assert(start =~= Seq::<(Seq<char>, Seq<char>)>::empty());
        }
        assert(headers_view(query@) =~= start + present(pairs));
        assert(start + present(pairs) =~= present(pairs));
        authed(Method::Get, self.item(id, "/wait"), query, None, copy_options(&options.request))
    }

    /// Terminates a process tree: `DELETE /processes/{id}` with the grace period in
    /// milliseconds when given.
    pub fn delete(&self, id: &str, options: &ManagedProcessDeleteOptions) -> (r: ApiRequest)
        ensures
            r@ == (Call { method: Method::Delete, path: self.process_path(id@, ""@),
                query: match options.grace_period {
                    Some(g) => seq![("grace_ms"@, decimal(g@ / 1_000_000))],
                    None => seq![],
                },
                body: None, authenticated: true }),
            same_options(r.options, options.request),
    {
        let mut query: Vec<(String, String)> = Vec::new();
        match options.grace_period {
            Some(g) => {
                query.push((String::from_str("grace_ms"), u128_to_decimal(g.as_millis())));
            },
            None => {},
        }
        assert(headers_view(query@) =~= match options.grace_period {
            Some(g) => seq![("grace_ms"@, decimal(g@ / 1_000_000))],
            None => seq![],
        });
        authed(Method::Delete, self.item(id, ""), query, None, copy_options(&options.request))
    }
}

// ---------------------------------------------------------------------------
// Account-level collections.

/// Custom root filesystem template operations.
#[derive(Clone, Copy, Debug, Default)]
pub struct TemplatesService;

/// Overlay-network operations.
#[derive(Clone, Copy, Debug, Default)]
pub struct NetworksService;

/// Registered persistent-disk operations.
#[derive(Clone, Copy, Debug, Default)]
pub struct DisksService;

/// The path of one item of an account-level collection.
pub open spec fn account_item(collection: Seq<char>, id: Seq<char>, suffix: Seq<char>) -> Seq<char> {
    item_path(""@, collection, id, suffix)
}

/// A walk over an account-level collection from an offset.
fn paged(path: &str, options: PaginationOptions, legacy_key: Option<&str>) -> (r: PagedRequest)
    ensures
        r@ == (PagedCall { path: path@, query: offset_pairs(options.offset), limit: options.limit,
            legacy_key: match legacy_key { Some(k) => Some(k@), None => None }, authenticated: true }),
        plain_options(r.options),
{
    PagedRequest {
        path: path.to_owned(),
        query: offset_query(options.offset),
        limit: options.limit,
        legacy_key: match legacy_key { Some(k) => Some(k.to_owned()), None => None },
        authenticated: true,
        options: RequestOptions::default(),
    }
}

fn account_request(method: Method, collection: &str, id: &str, suffix: &str, body: Option<JsonValue>) -> (r: ApiRequest)
    ensures
        r@ == (Call { method, path: account_item(collection@, id@, suffix@), query: seq![],
            body: crate::call::body_view(body), authenticated: true }),
        plain_options(r.options),
{
    authed(method, item_path_of("", collection, id, suffix), no_query(), body, RequestOptions::default())
}

fn collection_request(method: Method, path: &str, body: Option<JsonValue>) -> (r: ApiRequest)
    ensures
        r@ == (Call { method, path: path@, query: seq![], body: crate::call::body_view(body), authenticated: true }),
        plain_options(r.options),
{
    authed(method, path.to_owned(), no_query(), body, RequestOptions::default())
}

impl TemplatesService {
    /// Lists templates, page by page from the offset.
    pub fn list(&self, options: PaginationOptions) -> (r: PagedRequest)
        ensures
            r@ == (PagedCall { path: "/v1/templates"@, query: offset_pairs(options.offset), limit: options.limit,
                legacy_key: Some("templates"@), authenticated: true }),
            plain_options(r.options),
    {
        paged("/v1/templates", options, Some("templates"))
    }

    /// Creates a Dockerfile template: `POST /v1/templates`.
    pub fn create(&self, request: &TemplateCreateRequest) -> (r: ApiRequest)
        ensures
            r@ == (Call { method: Method::Post, path: "/v1/templates"@, query: seq![], body: Some(request.wire()),
                authenticated: true }),
            plain_options(r.options),
    {
        collection_request(Method::Post, "/v1/templates", Some(request.to_json()))
    }

    /// Gets a template: `GET /v1/templates/{id}`, with the extra field to return.
    pub fn get(&self, id: &str, options: &GetTemplateOptions) -> (r: ApiRequest)
        ensures
            r@ == (Call { method: Method::Get, path: account_item("/v1/templates"@, id@, ""@),
                query: match options.detail { Some(d) => seq![("include"@, d.0@)], None => seq![] },
                body: None, authenticated: true }),
            same_options(r.options, options.request),
    {
        let mut query: Vec<(String, String)> = Vec::new();
        match &options.detail {
            Some(d) => {
                query.push((String::from_str("include"), d.0.clone()));
            },
            None => {},
        }
        assert(headers_view(query@) =~= match options.detail { Some(d) => seq![("include"@, d.0@)], None => seq![] });
        authed(Method::Get, item_path_of("", "/v1/templates", id, ""), query, None, copy_options(&options.request))
    }

    /// Deletes a template: `DELETE /v1/templates/{id}`.
    pub fn delete(&self, id: &str) -> (r: ApiRequest)
        ensures
            r@ == (Call { method: Method::Delete, path: account_item("/v1/templates"@, id@, ""@), query: seq![],
                body: None, authenticated: true }),
            plain_options(r.options),
    {
        account_request(Method::Delete, "/v1/templates", id, "", None)
    }

    /// Collected build logs as plain text: `GET /v1/templates/{id}/logs`.
    pub fn logs(&self, id: &str, options: &TemplateLogsOptions) -> (r: ApiRequest)
        ensures
            r@ == (Call { method: Method::Get, path: account_item("/v1/templates"@, id@, "/logs"@),
                query: match options.attempt { Some(a) => seq![("attempt"@, decimal(a as nat))], None => seq![] },
                body: None, authenticated: true }),
            same_options(r.options, options.request),
    {
        authed(Method::Get, item_path_of("", "/v1/templates", id, "/logs"), attempt_query(options.attempt), None,
            copy_options(&options.request))
    }

    /// Follows build-log events: `GET /v1/templates/{id}/logs?follow=true`; never retried.
    pub fn follow_logs(&self, id: &str, options: &TemplateLogsOptions) -> (r: ApiRequest)
        ensures
            r@ == (Call { method: Method::Get, path: account_item("/v1/templates"@, id@, "/logs"@),
                query: match options.attempt {
                    Some(a) => seq![("attempt"@, decimal(a as nat)), ("follow"@, "true"@)],
                    None => seq![("follow"@, "true"@)],
                },
                body: None, authenticated: true }),
            headers_view(r.options.headers@) == headers_view(options.request.headers@),
            r.options.timeout == options.request.timeout,
            r.options.retry == options.request.retry,
            r.options.disable_retry,
    {
        let mut query = attempt_query(options.attempt);
        let ghost before = query@;
        query.push((String::from_str("follow"), String::from_str("true")));
        assert(headers_view(query@) =~= headers_view(before).push(("follow"@, "true"@)));
        assert(headers_view(query@) =~= match options.attempt {
            Some(a) => seq![("attempt"@, decimal(a as nat)), ("follow"@, "true"@)],
            None => seq![("follow"@, "true"@)],
        });
        authed(Method::Get, item_path_of("", "/v1/templates", id, "/logs"), query, None,
            options.request.without_retry())
    }
}

impl NetworksService {
    /// Lists overlay networks, page by page from the offset.
    pub fn list(&self, options: PaginationOptions) -> (r: PagedRequest)
        ensures
            r@ == (PagedCall { path: "/v1/networks"@, query: offset_pairs(options.offset), limit: options.limit,
                legacy_key: None, authenticated: true }),
            plain_options(r.options),
    {
        paged("/v1/networks", options, None)
    }

    /// Creates an overlay network: `POST /v1/networks`.
    pub fn create(&self, request: &NetworkCreateRequest) -> (r: ApiRequest)
        ensures
            r@ == (Call { method: Method::Post, path: "/v1/networks"@, query: seq![], body: Some(request.wire()),
                authenticated: true }),
            plain_options(r.options),
    {
        collection_request(Method::Post, "/v1/networks", Some(request.to_json()))
    }

    /// Gets an overlay network: `GET /v1/networks/{id}`.
    pub fn get(&self, id: &str) -> (r: ApiRequest)
        ensures
            r@ == (Call { method: Method::Get, path: account_item("/v1/networks"@, id@, ""@), query: seq![],
                body: None, authenticated: true }),
            plain_options(r.options),
    {
        account_request(Method::Get, "/v1/networks", id, "", None)
    }

    /// Deletes an overlay network: `DELETE /v1/networks/{id}`.
    pub fn delete(&self, id: &str) -> (r: ApiRequest)
        ensures
            r@ == (Call { method: Method::Delete, path: account_item("/v1/networks"@, id@, ""@), query: seq![],
                body: None, authenticated: true }),
            plain_options(r.options),
    {
        account_request(Method::Delete, "/v1/networks", id, "", None)
    }
}

impl DisksService {
    /// Lists registered disks, page by page from the offset.
    pub fn list(&self, options: PaginationOptions) -> (r: PagedRequest)
        ensures
            r@ == (PagedCall { path: "/v1/disks"@, query: offset_pairs(options.offset), limit: options.limit,
                legacy_key: Some("disks"@), authenticated: true }),
            plain_options(r.options),
    {
        paged("/v1/disks", options, Some("disks"))
    }

    /// Registers an S3-backed disk: `POST /v1/disks`.
    pub fn create(&self, request: &DiskCreateRequest) -> (r: ApiRequest)
        ensures
            r@ == (Call { method: Method::Post, path: "/v1/disks"@, query: seq![], body: Some(request.wire()),
                authenticated: true }),
            plain_options(r.options),
    {
        collection_request(Method::Post, "/v1/disks", Some(request.to_json()))
    }

    /// Gets a disk by ID or user-scoped name: `GET /v1/disks/{id_or_name}`.
    pub fn get(&self, id_or_name: &str) -> (r: ApiRequest)
        ensures
            r@ == (Call { method: Method::Get, path: account_item("/v1/disks"@, id_or_name@, ""@), query: seq![],
                body: None, authenticated: true }),
            plain_options(r.options),
    {
        account_request(Method::Get, "/v1/disks", id_or_name, "", None)
    }

    /// Deletes a disk registration: `DELETE /v1/disks/{id_or_name}`.
    pub fn delete(&self, id_or_name: &str) -> (r: ApiRequest)
        ensures
            r@ == (Call { method: Method::Delete, path: account_item("/v1/disks"@, id_or_name@, ""@), query: seq![],
                body: None, authenticated: true }),
            plain_options(r.options),
    {
        account_request(Method::Delete, "/v1/disks", id_or_name, "", None)
    }

    /// Replaces stored credentials: `PATCH /v1/disks/{id_or_name}` with `credentials`.
    pub fn rotate_credentials(&self, id_or_name: &str, credentials: &DiskCredentials) -> (r: ApiRequest)
        ensures
            r@ == (Call { method: Method::Patch, path: account_item("/v1/disks"@, id_or_name@, ""@), query: seq![],
                body: Some(Json::Object(seq![("credentials"@, credentials.wire())])), authenticated: true }),
            plain_options(r.options),
    {
        account_request(Method::Patch, "/v1/disks", id_or_name, "", Some(object1("credentials", credentials.to_json())))
    }
}

// ---------------------------------------------------------------------------
// Desktop.

/// Desktop computer-use operations.
#[derive(Debug)]
pub struct ComputerService {
    sandbox: String,
}

/// Mouse operations.
#[derive(Debug)]
pub struct MouseService {
    computer: ComputerService,
}

/// Keyboard operations.
#[derive(Debug)]
pub struct KeyboardService {
    computer: ComputerService,
}

/// Desktop window operations.
#[derive(Debug)]
pub struct WindowsService {
    computer: ComputerService,
}

/// Desktop screen operations.
#[derive(Debug)]
pub struct ScreensService {
    computer: ComputerService,
}

impl ComputerService {
    /// The sandbox's endpoint path.
    pub closed spec fn base(self) -> Seq<char> {
        self.sandbox@
    }

    /// The path of a desktop endpoint.
    pub open spec fn desktop(self, suffix: Seq<char>) -> Seq<char> {
        self.base() + "/computer"@ + suffix
    }

    fn at(&self, suffix: &str) -> (r: String)
        ensures
            r@ == self.desktop(suffix@),
    {
        let mut p = joined(self.sandbox.as_str(), "/computer");
        p.append(suffix);
        p
    }

    fn copy(&self) -> (c: ComputerService)
        ensures
            c.base() == self.base(),
    {
        ComputerService { sandbox: self.sandbox.clone() }
    }

    /// A desktop read: `GET` with the screen selection.
    fn read(&self, suffix: &str, options: &ComputerScreenOptions) -> (r: ApiRequest)
        ensures
            r@ == (Call { method: Method::Get, path: self.desktop(suffix@), query: screen_pairs(options.screen_id),
                body: None, authenticated: true }),
            same_options(r.options, options.request),
    {
        authed(Method::Get, self.at(suffix), screen_query(&options.screen_id), None, copy_options(&options.request))
    }

    /// A desktop action: a request with a JSON body and the screen selection.
    fn action(&self, method: Method, suffix: &str, options: &ComputerScreenOptions, body: JsonValue) -> (r: ApiRequest)
        ensures
            r@ == (Call { method, path: self.desktop(suffix@), query: screen_pairs(options.screen_id),
                body: Some(body@), authenticated: true }),
            same_options(r.options, options.request),
    {
        authed(method, self.at(suffix), screen_query(&options.screen_id), Some(body), copy_options(&options.request))
    }

    /// Mouse operations.
    pub fn mouse(&self) -> (m: MouseService)
        ensures
            m.base() == self.base(),
    {
        MouseService { computer: self.copy() }
    }

    /// Keyboard operations.
    pub fn keyboard(&self) -> (k: KeyboardService)
        ensures
            k.base() == self.base(),
    {
        KeyboardService { computer: self.copy() }
    }

    /// Window operations.
    pub fn windows(&self) -> (w: WindowsService)
        ensures
            w.base() == self.base(),
    {
        WindowsService { computer: self.copy() }
    }

    /// Screen operations.
    pub fn screens(&self) -> (s: ScreensService)
        ensures
            s.base() == self.base(),
    {
        ScreensService { computer: self.copy() }
    }

    /// Captures a PNG screenshot: `GET /computer/screenshot` with the screen selection,
    /// then the window and crop values that are given.
    pub fn screenshot(&self, options: &ComputerScreenshotOptions) -> (r: ApiRequest)
        ensures
            r@ == (Call { method: Method::Get, path: self.desktop("/screenshot"@),
                query: screen_pairs(options.screen.screen_id) + present(screenshot_pairs(*options)),
                body: None, authenticated: true }),
            same_options(r.options, options.screen.request),
    {
        let mut query = screen_query(&options.screen.screen_id);
        let ghost start = headers_view(query@);
        add_opt(&mut query, "window_id", crate::models::copy_text(&options.window_id));
        add_opt(&mut query, "x", signed_text(options.x));
        add_opt(&mut query, "y", signed_text(options.y));
        add_opt(&mut query, "width", unsigned_text(options.width));
        add_opt(&mut query, "height", unsigned_text(options.height));
        let ghost pairs = screenshot_pairs(*options);
        proof {
            let p1 = pairs.take(1);
            let p2 = pairs.take(2);
            let p3 = pairs.take(3);
            let p4 = pairs.take(4);
            assert(p1.drop_last() =~= Seq::<(Seq<char>, Option<Seq<char>>)>::empty());
            assert(p2.drop_last() =~= p1);
            assert(p3.drop_last() =~= p2);
            assert(p4.drop_last() =~= p3);
            assert(pairs.drop_last() =~= p4);
            assert(start + present(p1.drop_last()) =~= start);
            lemma_present_prefix(start, p1);
            lemma_present_prefix(start, p2);
            lemma_present_prefix(start, p3);
            lemma_present_prefix(start, p4);
            lemma_present_prefix(start, pairs);
        }
        assert(headers_view(query@) =~= start + present(pairs));
        authed(Method::Get, self.at("/screenshot"), query, None, copy_options(&options.screen.request))
    }

    /// Active screen dimensions: `GET /computer/screen`.
    pub fn screen(&self, options: &ComputerScreenOptions) -> (r: ApiRequest)
        ensures
            r@ == (Call { method: Method::Get, path: self.desktop("/screen"@), query: screen_pairs(options.screen_id),
                body: None, authenticated: true }),
            same_options(r.options, options.request),
    {
        self.read("/screen", options)
    }

    /// Cursor coordinates: `GET /computer/cursor`.
    pub fn cursor(&self, options: &ComputerScreenOptions) -> (r: ApiRequest)
        ensures
            r@ == (Call { method: Method::Get, path: self.desktop("/cursor"@), query: screen_pairs(options.screen_id),
                body: None, authenticated: true }),
            same_options(r.options, options.request),
    {
        self.read("/cursor", options)
    }

    /// Clipboard text: `GET /computer/clipboard`.
    pub fn clipboard(&self, options: &ComputerScreenOptions) -> (r: ApiRequest)
        ensures
            r@ == (Call { method: Method::Get, path: self.desktop("/clipboard"@),
                query: screen_pairs(options.screen_id), body: None, authenticated: true }),
            same_options(r.options, options.request),
    {
        self.read("/clipboard", options)
    }

    /// Replaces clipboard text: `PUT /computer/clipboard` with `text`.
    pub fn set_clipboard(&self, text: &str, options: &ComputerScreenOptions) -> (r: ApiRequest)
        ensures
            r@ == (Call { method: Method::Put, path: self.desktop("/clipboard"@), query: screen_pairs(options.screen_id),
                body: Some(Json::Object(seq![("text"@, Json::Str(text@))])), authenticated: true }),
            same_options(r.options, options.request),
    {
        self.action(Method::Put, "/clipboard", options, object1("text", JsonValue::from_str(text)))
    }

    /// Opens a URL or desktop target: `POST /computer/open`.
    pub fn open(&self, request: &ComputerOpenRequest, options: &ComputerScreenOptions) -> (r: ApiRequest)
        ensures
            r@ == (Call { method: Method::Post, path: self.desktop("/open"@), query: screen_pairs(options.screen_id),
                body: Some(request.wire()), authenticated: true }),
            same_options(r.options, options.request),
    {
        self.action(Method::Post, "/open", options, request.to_json())
    }

    /// Launches an installed application: `POST /computer/launch`.
    pub fn launch(&self, request: &ComputerLaunchRequest, options: &ComputerScreenOptions) -> (r: ApiRequest)
        ensures
            r@ == (Call { method: Method::Post, path: self.desktop("/launch"@), query: screen_pairs(options.screen_id),
                body: Some(request.wire()), authenticated: true }),
            same_options(r.options, options.request),
    {
        self.action(Method::Post, "/launch", options, request.to_json())
    }
}

/// Appending the present pairs one at a time.
proof fn lemma_present_prefix(start: Seq<(Seq<char>, Seq<char>)>, pairs: Seq<(Seq<char>, Option<Seq<char>>)>)
    requires
        pairs.len() > 0,
    ensures
        start + present(pairs) == match pairs.last().1 {
            Some(v) => (start + present(pairs.drop_last())).push((pairs.last().0, v)),
            None => start + present(pairs.drop_last()),
        },
{
    match pairs.last().1 {
        Some(v) => {
            assert(start + present(pairs) =~= (start + present(pairs.drop_last())).push((pairs.last().0, v)));
        },
        None => {},
    }
}

impl MouseService {
    /// The sandbox's endpoint path.
    pub closed spec fn base(self) -> Seq<char> {
        self.computer.base()
    }

    /// Moves the cursor: `POST /computer/mouse/move`.
    pub fn move_to(&self, point: &ComputerPoint, options: &ComputerScreenOptions) -> (r: ApiRequest)
        ensures
            r@ == (Call { method: Method::Post, path: self.base() + "/computer"@ + "/mouse/move"@,
                query: screen_pairs(options.screen_id), body: Some(point.wire()), authenticated: true }),
            same_options(r.options, options.request),
    {
        self.computer.action(Method::Post, "/mouse/move", options, point.to_json())
    }

    /// Clicks a mouse button: `POST /computer/mouse/click`.
    pub fn click(&self, request: &ComputerClickRequest, options: &ComputerScreenOptions) -> (r: ApiRequest)
        ensures
            r@ == (Call { method: Method::Post, path: self.base() + "/computer"@ + "/mouse/click"@,
                query: screen_pairs(options.screen_id), body: Some(request.wire()), authenticated: true }),
            same_options(r.options, options.request),
    {
        self.computer.action(Method::Post, "/mouse/click", options, request.to_json())
    }

    /// Scrolls the desktop: `POST /computer/mouse/scroll`.
    pub fn scroll(&self, request: &ComputerScrollRequest, options: &ComputerScreenOptions) -> (r: ApiRequest)
        ensures
            r@ == (Call { method: Method::Post, path: self.base() + "/computer"@ + "/mouse/scroll"@,
                query: screen_pairs(options.screen_id), body: Some(request.wire()), authenticated: true }),
            same_options(r.options, options.request),
    {
        self.computer.action(Method::Post, "/mouse/scroll", options, request.to_json())
    }

    /// Drags between two points: `POST /computer/mouse/drag`.
    pub fn drag(&self, request: &ComputerDragRequest, options: &ComputerScreenOptions) -> (r: ApiRequest)
        ensures
            r@ == (Call { method: Method::Post, path: self.base() + "/computer"@ + "/mouse/drag"@,
                query: screen_pairs(options.screen_id), body: Some(request.wire()), authenticated: true }),
            same_options(r.options, options.request),
    {
        self.computer.action(Method::Post, "/mouse/drag", options, request.to_json())
    }

    /// Presses a mouse button: `POST /computer/mouse/down`.
    pub fn down(&self, request: &ComputerButtonRequest, options: &ComputerScreenOptions) -> (r: ApiRequest)
        ensures
            r@ == (Call { method: Method::Post, path: self.base() + "/computer"@ + "/mouse/down"@,
                query: screen_pairs(options.screen_id), body: Some(request.wire()), authenticated: true }),
            same_options(r.options, options.request),
    {
        self.computer.action(Method::Post, "/mouse/down", options, request.to_json())
    }

    /// Releases a mouse button: `POST /computer/mouse/up`.
    pub fn up(&self, request: &ComputerButtonRequest, options: &ComputerScreenOptions) -> (r: ApiRequest)
        ensures
            r@ == (Call { method: Method::Post, path: self.base() + "/computer"@ + "/mouse/up"@,
                query: screen_pairs(options.screen_id), body: Some(request.wire()), authenticated: true }),
            same_options(r.options, options.request),
    {
        self.computer.action(Method::Post, "/mouse/up", options, request.to_json())
    }
}

impl KeyboardService {
    /// The sandbox's endpoint path.
    pub closed spec fn base(self) -> Seq<char> {
        self.computer.base()
    }

    /// Types text: `POST /computer/keyboard/type`.
    pub fn type_text(&self, request: &ComputerTypeRequest, options: &ComputerScreenOptions) -> (r: ApiRequest)
        ensures
            r@ == (Call { method: Method::Post, path: self.base() + "/computer"@ + "/keyboard/type"@,
                query: screen_pairs(options.screen_id), body: Some(request.wire()), authenticated: true }),
            same_options(r.options, options.request),
    {
        self.computer.action(Method::Post, "/keyboard/type", options, request.to_json())
    }

    /// Presses and releases keys: `POST /computer/keyboard/press` with `keys`.
    pub fn press(&self, keys: &Vec<String>, options: &ComputerScreenOptions) -> (r: ApiRequest)
        ensures
            r@ == (Call { method: Method::Post, path: self.base() + "/computer"@ + "/keyboard/press"@,
                query: screen_pairs(options.screen_id),
                body: Some(Json::Object(seq![("keys"@, str_array(strings_view(keys@)))])), authenticated: true }),
            same_options(r.options, options.request),
    {
        self.computer.action(Method::Post, "/keyboard/press", options, object1("keys", JsonValue::from_strings(keys)))
    }

    /// Presses keys without releasing them: `POST /computer/keyboard/down` with `keys`.
    pub fn down(&self, keys: &Vec<String>, options: &ComputerScreenOptions) -> (r: ApiRequest)
        ensures
            r@ == (Call { method: Method::Post, path: self.base() + "/computer"@ + "/keyboard/down"@,
                query: screen_pairs(options.screen_id),
                body: Some(Json::Object(seq![("keys"@, str_array(strings_view(keys@)))])), authenticated: true }),
            same_options(r.options, options.request),
    {
        self.computer.action(Method::Post, "/keyboard/down", options, object1("keys", JsonValue::from_strings(keys)))
    }

    /// Releases keys: `POST /computer/keyboard/up` with `keys`.
    pub fn up(&self, keys: &Vec<String>, options: &ComputerScreenOptions) -> (r: ApiRequest)
        ensures
            r@ == (Call { method: Method::Post, path: self.base() + "/computer"@ + "/keyboard/up"@,
                query: screen_pairs(options.screen_id),
                body: Some(Json::Object(seq![("keys"@, str_array(strings_view(keys@)))])), authenticated: true }),
            same_options(r.options, options.request),
    {
        self.computer.action(Method::Post, "/keyboard/up", options, object1("keys", JsonValue::from_strings(keys)))
    }
}

impl WindowsService {
    /// The sandbox's endpoint path.
    pub closed spec fn base(self) -> Seq<char> {
        self.computer.base()
    }

    /// The path of one window followed by `suffix`.
    pub open spec fn window_path(self, id: Seq<char>, suffix: Seq<char>) -> Seq<char> {
        self.base() + "/computer"@ + ("/windows/"@ + encoded(id) + suffix)
    }

    fn window(id: &str, suffix: &str) -> (r: String)
        ensures
            r@ == "/windows/"@ + encoded(id@) + suffix@,
    {
        let mut p = String::from_str("/windows/");
        let e = encode(id);
        p.append(e.as_str());
        p.append(suffix);
        p
    }

    /// A window action: `POST /computer/windows/{id}/{action}`.
    fn act(&self, id: &str, suffix: &str, options: &ComputerScreenOptions, body: JsonValue) -> (r: ApiRequest)
        ensures
            r@ == (Call { method: Method::Post, path: self.window_path(id@, suffix@), query: screen_pairs(options.screen_id),
                body: Some(body@), authenticated: true }),
            same_options(r.options, options.request),
    {
        let suffix = Self::window(id, suffix);
        self.computer.action(Method::Post, suffix.as_str(), options, body)
    }

    /// Lists visible windows: `GET /computer/windows` with the screen selection and the
    /// application filter when given.
    pub fn list(&self, options: &ComputerListWindowsOptions) -> (r: ApiRequest)
        ensures
            r@ == (Call { method: Method::Get, path: self.base() + "/computer"@ + "/windows"@,
                query: match options.application {
                    Some(a) => screen_pairs(options.screen.screen_id).push(("application"@, a@)),
                    None => screen_pairs(options.screen.screen_id),
                },
                body: None, authenticated: true }),
            same_options(r.options, options.screen.request),
    {
        let mut query = screen_query(&options.screen.screen_id);
        add_opt(&mut query, "application", crate::models::copy_text(&options.application));
        authed(Method::Get, self.computer.at("/windows"), query, None, copy_options(&options.screen.request))
    }

    /// The active window: `GET /computer/windows/current`.
    pub fn current(&self, options: &ComputerScreenOptions) -> (r: ApiRequest)
        ensures
            r@ == (Call { method: Method::Get, path: self.base() + "/computer"@ + "/windows/current"@,
                query: screen_pairs(options.screen_id), body: None, authenticated: true }),
            same_options(r.options, options.request),
    {
        self.computer.read("/windows/current", options)
    }

    /// A window by ID: `GET /computer/windows/{id}`.
    pub fn get(&self, id: &str, options: &ComputerScreenOptions) -> (r: ApiRequest)
        ensures
            r@ == (Call { method: Method::Get, path: self.window_path(id@, ""@), query: screen_pairs(options.screen_id),
                body: None, authenticated: true }),
            same_options(r.options, options.request),
    {
        let suffix = Self::window(id, "");
        self.computer.read(suffix.as_str(), options)
    }

    /// A window's geometry: `GET /computer/windows/{id}/geometry`.
    pub fn geometry(&self, id: &str, options: &ComputerScreenOptions) -> (r: ApiRequest)
        ensures
            r@ == (Call { method: Method::Get, path: self.window_path(id@, "/geometry"@),
                query: screen_pairs(options.screen_id), body: None, authenticated: true }),
            same_options(r.options, options.request),
    {
        let suffix = Self::window(id, "/geometry");
        self.computer.read(suffix.as_str(), options)
    }

    /// Focuses a window: `POST /computer/windows/{id}/focus`.
    pub fn focus(&self, id: &str, options: &ComputerScreenOptions) -> (r: ApiRequest)
        ensures
            r@ == (Call { method: Method::Post, path: self.window_path(id@, "/focus"@),
                query: screen_pairs(options.screen_id), body: Some(Json::Null), authenticated: true }),
            same_options(r.options, options.request),
    {
        self.act(id, "/focus", options, JsonValue::Null)
    }

    /// Moves a window: `POST /computer/windows/{id}/move`.
    pub fn move_to(&self, id: &str, request: &ComputerWindowMoveRequest, options: &ComputerScreenOptions) -> (r: ApiRequest)
        ensures
            r@ == (Call { method: Method::Post, path: self.window_path(id@, "/move"@),
                query: screen_pairs(options.screen_id), body: Some(request.wire()), authenticated: true }),
            same_options(r.options, options.request),
    {
        self.act(id, "/move", options, request.to_json())
    }

    /// Resizes a window: `POST /computer/windows/{id}/resize`.
    pub fn resize(&self, id: &str, request: &ComputerWindowResizeRequest, options: &ComputerScreenOptions) -> (r: ApiRequest)
        ensures
            r@ == (Call { method: Method::Post, path: self.window_path(id@, "/resize"@),
                query: screen_pairs(options.screen_id), body: Some(request.wire()), authenticated: true }),
            same_options(r.options, options.request),
    {
        self.act(id, "/resize", options, request.to_json())
    }

    /// Maximizes a window: `POST /computer/windows/{id}/maximize`.
    pub fn maximize(&self, id: &str, options: &ComputerScreenOptions) -> (r: ApiRequest)
        ensures
            r@ == (Call { method: Method::Post, path: self.window_path(id@, "/maximize"@),
                query: screen_pairs(options.screen_id), body: Some(Json::Null), authenticated: true }),
            same_options(r.options, options.request),
    {
        self.act(id, "/maximize", options, JsonValue::Null)
    }

    /// Minimizes a window: `POST /computer/windows/{id}/minimize`.
    pub fn minimize(&self, id: &str, options: &ComputerScreenOptions) -> (r: ApiRequest)
        ensures
            r@ == (Call { method: Method::Post, path: self.window_path(id@, "/minimize"@),
                query: screen_pairs(options.screen_id), body: Some(Json::Null), authenticated: true }),
            same_options(r.options, options.request),
    {
        self.act(id, "/minimize", options, JsonValue::Null)
    }

    /// Restores a window: `POST /computer/windows/{id}/restore`.
    pub fn restore(&self, id: &str, options: &ComputerScreenOptions) -> (r: ApiRequest)
        ensures
            r@ == (Call { method: Method::Post, path: self.window_path(id@, "/restore"@),
                query: screen_pairs(options.screen_id), body: Some(Json::Null), authenticated: true }),
            same_options(r.options, options.request),
    {
        self.act(id, "/restore", options, JsonValue::Null)
    }

    /// Closes a window: `DELETE /computer/windows/{id}`.
    pub fn close(&self, id: &str, options: &ComputerScreenOptions) -> (r: ApiRequest)
        ensures
            r@ == (Call { method: Method::Delete, path: self.window_path(id@, ""@),
                query: screen_pairs(options.screen_id), body: None, authenticated: true }),
            same_options(r.options, options.request),
    {
        let suffix = Self::window(id, "");
        authed(Method::Delete, self.computer.at(suffix.as_str()), screen_query(&options.screen_id), None,
            copy_options(&options.request))
    }
}

impl ScreensService {
    /// The sandbox's endpoint path.
    pub closed spec fn base(self) -> Seq<char> {
        self.computer.base()
    }

    /// The path of one screen followed by `suffix`.
    pub open spec fn screen_path(self, id: Seq<char>, suffix: Seq<char>) -> Seq<char> {
        self.base() + "/computer"@ + ("/screens/"@ + encoded(id) + suffix)
    }

    fn screen(&self, method: Method, id: &ComputerScreenId, suffix: &str, body: Option<JsonValue>) -> (r: ApiRequest)
        ensures
            r@ == (Call { method, path: self.screen_path(id.0@, suffix@), query: seq![],
                body: crate::call::body_view(body), authenticated: true }),
            plain_options(r.options),
    {
        let mut p = String::from_str("/screens/");
        let e = encode(id.as_str());
        p.append(e.as_str());
        p.append(suffix);
        authed(method, self.computer.at(p.as_str()), no_query(), body, RequestOptions::default())
    }

    /// Lists configured screens: `GET /computer/screens`.
    pub fn list(&self) -> (r: ApiRequest)
        ensures
            r@ == (Call { method: Method::Get, path: self.base() + "/computer"@ + "/screens"@, query: seq![],
                body: None, authenticated: true }),
            plain_options(r.options),
    {
        authed(Method::Get, self.computer.at("/screens"), no_query(), None, RequestOptions::default())
    }

    /// Creates a screen: `POST /computer/screens`.
    pub fn create(&self, request: &ComputerCreateScreenRequest) -> (r: ApiRequest)
        ensures
            r@ == (Call { method: Method::Post, path: self.base() + "/computer"@ + "/screens"@, query: seq![],
                body: Some(request.wire()), authenticated: true }),
            plain_options(r.options),
    {
        authed(Method::Post, self.computer.at("/screens"), no_query(), Some(request.to_json()), RequestOptions::default())
    }

    /// Gets one screen: `GET /computer/screens/{id}`.
    pub fn get(&self, id: &ComputerScreenId) -> (r: ApiRequest)
        ensures
            r@ == (Call { method: Method::Get, path: self.screen_path(id.0@, ""@), query: seq![], body: None,
                authenticated: true }),
            plain_options(r.options),
    {
        self.screen(Method::Get, id, "", None)
    }

    /// A temporary noVNC connection: `GET /computer/screens/{id}/connect`.
    pub fn connect(&self, id: &ComputerScreenId) -> (r: ApiRequest)
        ensures
            r@ == (Call { method: Method::Get, path: self.screen_path(id.0@, "/connect"@), query: seq![], body: None,
                authenticated: true }),
            plain_options(r.options),
    {
        self.screen(Method::Get, id, "/connect", None)
    }

    /// Resizes a screen: `POST /computer/screens/{id}/resize`.
    pub fn resize(&self, id: &ComputerScreenId, request: &ComputerCreateScreenRequest) -> (r: ApiRequest)
        ensures
            r@ == (Call { method: Method::Post, path: self.screen_path(id.0@, "/resize"@), query: seq![],
                body: Some(request.wire()), authenticated: true }),
            plain_options(r.options),
    {
        self.screen(Method::Post, id, "/resize", Some(request.to_json()))
    }

    /// Deletes a screen: `DELETE /computer/screens/{id}`.
    pub fn delete(&self, id: &ComputerScreenId) -> (r: ApiRequest)
        ensures
            r@ == (Call { method: Method::Delete, path: self.screen_path(id.0@, ""@), query: seq![], body: None,
                authenticated: true }),
            plain_options(r.options),
    {
        self.screen(Method::Delete, id, "", None)
    }
}

// ---------------------------------------------------------------------------
// Services of a sandbox.

impl Instance {
    /// File-transfer operations of this sandbox.
    pub fn files(&self) -> (s: FilesService)
        ensures
            s.base() == sandbox_path(self.sandbox().id@, ""@),
    {
        FilesService { sandbox: self.path("") }
    }

    /// Managed-process operations of this sandbox.
    pub fn processes(&self) -> (s: ProcessesService)
        ensures
            s.base() == sandbox_path(self.sandbox().id@, ""@),
    {
        ProcessesService { sandbox: self.path("") }
    }

    /// Desktop operations of this sandbox.
    pub fn computer(&self) -> (s: ComputerService)
        ensures
            s.base() == sandbox_path(self.sandbox().id@, ""@),
    {
        ComputerService { sandbox: self.path("") }
    }
}

} // verus!
