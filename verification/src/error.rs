//! Errors of the library, and the decoding of failed API responses.

use vstd::prelude::*;
use vstd::utf8::*;
use vstd::string::StringSliceAdditionalSpecFns;
use crate::duration::Duration;
use crate::json::{Json, JsonValue, json_parse, parse_json, view_entries, lemma_view_entries};
use crate::models::{CommandResult, RunCommandResponse};
use crate::text::{chars_of, signed_decimal, decimal, i64_to_decimal, u64_to_decimal};
use crate::transport::{Method, method_name};

verus! {

/// Largest number of response-body bytes kept for a failed request (4 MiB).
pub const MAX_ERROR_BODY: usize = 4_194_304;

/// The error type of base64 decoding.
#[verifier::external_type_specification]
#[verifier::external_body]
pub struct ExBase64DecodeError(base64::DecodeError);

/// The error type of local I/O.
#[verifier::external_type_specification]
#[verifier::external_body]
pub struct ExIoError(std::io::Error);

/// A failure of the HTTP client before a valid API response arrived.
#[derive(Clone, Debug, PartialEq, Eq)]
pub struct TransportFailure {
    /// The client's description of the failure.
    pub message: String,
    /// Whether the request exceeded its timeout.
    pub timeout: bool,
}

/// A failure to encode or decode JSON.
#[derive(Clone, Debug, PartialEq, Eq)]
pub struct JsonFailure {
    /// The codec's description of the failure.
    pub message: String,
}

/// A non-successful response from the `CreateOS` API.
#[derive(Debug)]
pub struct ApiError {
    /// HTTP response status.
    pub status: u16,
    /// Stable API error code, when supplied.
    pub code: Option<i64>,
    /// Server request identifier, when supplied.
    pub request_id: Option<String>,
    /// Request method.
    pub method: String,
    /// API endpoint path.
    pub endpoint: String,
    /// Response headers, as name and value.
    pub headers: Vec<(String, String)>,
    /// Raw response body, at most [`MAX_ERROR_BODY`] bytes.
    pub body: Vec<u8>,
    /// Human-readable API message.
    pub message: String,
}

/// A shell command that completed with a nonzero exit code or agent error.
#[derive(Debug)]
pub struct CommandError {
    /// Complete command response, including stdout, stderr, and exit status.
    pub response: RunCommandResponse,
}

/// Errors returned by this library.
#[derive(Debug)]
pub enum Error {
    /// Client configuration is invalid.
    Configuration(String),
    /// A request argument is invalid.
    InvalidArgument(String),
    /// The HTTP client failed before receiving a valid API response.
    Transport(TransportFailure),
    /// The API returned a non-successful response.
    Api(ApiError),
    /// A shell command completed unsuccessfully.
    Command(CommandError),
    /// The API response did not match the protocol.
    Protocol(String),
    /// JSON encoding or decoding failed.
    Json(JsonFailure),
    /// Base64 process output was invalid.
    Base64(base64::DecodeError),
    /// Local I/O failed.
    Io(std::io::Error),
    /// An SDK wait operation exceeded its budget.
    Timeout(Duration),
}

/// A crate-wide result.
pub type Result<T> = core::result::Result<T, Error>;

// ---------------------------------------------------------------------------
// Tail of a text on a character boundary.

/// The first character boundary at or after byte `j`.
pub open spec fn next_boundary(bytes: Seq<u8>, j: int) -> int
    decreases bytes.len() - j,
{
    if j >= bytes.len() || is_char_boundary(bytes, j) {
        j
    } else {
        next_boundary(bytes, j + 1)
    }
}

/// Where the last `maximum` bytes of `bytes` start, moved forward to a character boundary.
pub open spec fn tail_start(bytes: Seq<u8>, maximum: int) -> int {
    if bytes.len() <= maximum {
        0
    } else {
        next_boundary(bytes, bytes.len() - maximum)
    }
}

/// The characters of the tail of `s` that [`tail`] returns.
pub open spec fn tail_chars(s: Seq<char>, maximum: int) -> Seq<char> {
    let b = encode_utf8(s);
    decode_utf8(b.subrange(tail_start(b, maximum), b.len() as int))
}

/// The last `maximum` bytes of `value`, shortened to start on a character boundary.
pub fn tail(value: &str, maximum: usize) -> (r: &str)
    ensures
        r.spec_bytes() == value.spec_bytes().subrange(
            tail_start(value.spec_bytes(), maximum as int),
            value.spec_bytes().len() as int,
        ),
        r@ == tail_chars(value@, maximum as int),
        r.spec_bytes().len() <= maximum || r.spec_bytes() == value.spec_bytes(),
{
    broadcast use encode_utf8_valid_utf8, encode_utf8_decode_utf8, is_char_boundary_start_end_of_seq;
    let ghost bytes = value.spec_bytes();
    let length = value.as_bytes().len();
    assert(length == bytes.len());
    if length <= maximum {
        assert(bytes.subrange(0, bytes.len() as int) =~= bytes);
        return value;
    }
    let mut start = length - maximum;
    let ghost first = start as int;
    assert(is_char_boundary(bytes, bytes.len() as int));
    while !value.is_char_boundary(start)
        invariant
            bytes == value.spec_bytes(),
            length == bytes.len(),
            valid_utf8(bytes),
            is_char_boundary(bytes, bytes.len() as int),
            first <= start <= bytes.len(),
            next_boundary(bytes, start as int) == next_boundary(bytes, first),
        decreases bytes.len() - start,
    {
        assert(start < length);
        start += 1;
    }
    let (_, rest) = value.split_at(start);
    proof {
        assert(decode_utf8(encode_utf8(rest@)) == rest@);
    }
    rest
}

// ---------------------------------------------------------------------------
// Command failures.

/// The text of a failed command: its status, then its agent error and the tail of its
/// standard error when they are not empty.
pub open spec fn command_failure_text(r: CommandResult) -> Seq<char> {
    let head = "command exited with status "@ + signed_decimal(r.exit_code as int);
    let with_error = if r.error_message@.len() == 0 {
        head
    } else {
        head + "\nerror: "@ + r.error_message@
    };
    if r.standard_error@.len() == 0 {
        with_error
    } else {
        with_error + "\nstderr: "@ + tail_chars(r.standard_error@, 2000)
    }
}

impl CommandError {
    /// The human-readable description of the failure.
    pub fn describe(&self) -> (s: String)
        ensures
            s@ == command_failure_text(self.response.result),
    {
        let result = &self.response.result;
        let mut s = String::from_str("command exited with status ");
        let code = i64_to_decimal(result.exit_code as i64);
        s.append(code.as_str());
        if !result.error_message.as_str().is_empty() {
            s.append("\nerror: ");
            s.append(result.error_message.as_str());
        }
        if !result.standard_error.as_str().is_empty() {
            s.append("\nstderr: ");
            s.append(tail(result.standard_error.as_str(), 2000));
        }
        s
    }
}

// ---------------------------------------------------------------------------
// Messages carried by a failure's `data` member.

/// Lexicographic order of texts by character code, which is the byte order of their
/// UTF-8 encodings.
pub open spec fn key_le(a: Seq<char>, b: Seq<char>) -> bool
    decreases a.len(),
{
    if a.len() == 0 {
        true
    } else if b.len() == 0 {
        false
    } else if a[0] != b[0] {
        a[0] < b[0]
    } else {
        key_le(a.drop_first(), b.drop_first())
    }
}

pub proof fn lemma_key_le_total(a: Seq<char>, b: Seq<char>)
    ensures
        key_le(a, b) || key_le(b, a),
    decreases a.len(),
{
    if a.len() > 0 && b.len() > 0 && a[0] == b[0] {
        lemma_key_le_total(a.drop_first(), b.drop_first());
    }
}

pub proof fn lemma_key_le_transitive(a: Seq<char>, b: Seq<char>, c: Seq<char>)
    requires
        key_le(a, b),
        key_le(b, c),
    ensures
        key_le(a, c),
    decreases a.len(),
{
    if a.len() > 0 && b.len() > 0 && c.len() > 0 && a[0] == b[0] && b[0] == c[0] {
        lemma_key_le_transitive(a.drop_first(), b.drop_first(), c.drop_first());
    }
}

fn key_le_exec(a: &Vec<char>, b: &Vec<char>) -> (r: bool)
    ensures
        r == key_le(a@, b@),
{
    let mut i: usize = 0;
    assert(a@.subrange(0, a@.len() as int) =~= a@);
    assert(b@.subrange(0, b@.len() as int) =~= b@);
    while i < a.len() && i < b.len()
        invariant
            i <= a.len(),
            i <= b.len(),
            key_le(a@, b@) == key_le(a@.subrange(i as int, a@.len() as int), b@.subrange(i as int, b@.len() as int)),
        decreases a.len() - i,
    {
        let ghost sa = a@.subrange(i as int, a@.len() as int);
        let ghost sb = b@.subrange(i as int, b@.len() as int);
        assert(sa[0] == a@[i as int] && sb[0] == b@[i as int]);
        if a[i] != b[i] {
            return a[i] < b[i];
        }
        assert(sa.drop_first() =~= a@.subrange(i + 1, a@.len() as int));
        assert(sb.drop_first() =~= b@.subrange(i + 1, b@.len() as int));
        i += 1;
    }
    i == a.len()
}

/// The string-valued members of an object, in order.
pub open spec fn string_members(entries: Seq<(Seq<char>, Json)>) -> Seq<(Seq<char>, Seq<char>)>
    decreases entries.len(),
{
    if entries.len() == 0 {
        Seq::empty()
    } else {
        let rest = string_members(entries.drop_last());
        match entries.last().1 {
            Json::Str(s) => rest.push((entries.last().0, s)),
            _ => rest,
        }
    }
}

/// `key: value`.
pub open spec fn render_member(p: (Seq<char>, Seq<char>)) -> Seq<char> {
    p.0 + ": "@ + p.1
}

/// Members rendered as `key: value`, joined by `; `.
pub open spec fn render_members(ps: Seq<(Seq<char>, Seq<char>)>) -> Seq<char>
    decreases ps.len(),
{
    if ps.len() == 0 {
        Seq::empty()
    } else if ps.len() == 1 {
        render_member(ps[0])
    } else {
        render_members(ps.drop_last()) + "; "@ + render_member(ps.last())
    }
}

/// Members ordered by key.
pub open spec fn keys_sorted(ps: Seq<(Seq<char>, Seq<char>)>) -> bool {
    forall|i: int, j: int| 0 <= i < j < ps.len() ==> key_le(#[trigger] ps[i].0, #[trigger] ps[j].0)
}

/// Whether `m` is the message that a failure's `data` member `v` carries: a string is
/// the message itself; for an object, its string members sorted by key and rendered as
/// `key: value` joined by `; `; nothing for anything else or an object without string
/// members.
pub open spec fn data_message(v: Json, m: Option<Seq<char>>) -> bool {
    match v {
        Json::Str(s) => m == Some(s),
        Json::Object(entries) => {
            let fs = string_members(entries);
            if fs.len() == 0 {
                m is None
            } else {
                m is Some && exists|ps: Seq<(Seq<char>, Seq<char>)>|
                    keys_sorted(ps) && ps.to_multiset() =~= fs.to_multiset()
                        && m->0 == render_members(ps)
            }
        },
        _ => m is None,
    }
}

spec fn pairs_view(v: Seq<(String, String)>) -> Seq<(Seq<char>, Seq<char>)> {
    v.map_values(|p: (String, String)| (p.0@, p.1@))
}

proof fn lemma_insert_multiset<A>(s: Seq<A>, p: int, x: A)
    requires
        0 <= p <= s.len(),
    ensures
        s.insert(p, x).to_multiset() =~= s.to_multiset().insert(x),
{
    broadcast use vstd::seq_lib::group_to_multiset_ensures, vstd::multiset::group_multiset_axioms;
    let a = s.subrange(0, p);
    let b = s.subrange(p, s.len() as int);
    assert(s =~= a + b);
    assert(s.insert(p, x) =~= a.push(x) + b);
    vstd::seq_lib::lemma_multiset_commutative(a, b);
    vstd::seq_lib::lemma_multiset_commutative(a.push(x), b);
}

/// Sorts members by key (insertion sort).
fn sort_members(fields: Vec<(String, String)>) -> (sorted: Vec<(String, String)>)
    ensures
        keys_sorted(pairs_view(sorted@)),
        pairs_view(sorted@).to_multiset() =~= pairs_view(fields@).to_multiset(),
{
    broadcast use vstd::seq_lib::group_to_multiset_ensures;
    let mut sorted: Vec<(String, String)> = Vec::new();
    let mut i: usize = 0;
    while i < fields.len()
        invariant
            i <= fields.len(),
            keys_sorted(pairs_view(sorted@)),
            pairs_view(sorted@).to_multiset() =~= pairs_view(fields@.subrange(0, i as int)).to_multiset(),
        decreases fields.len() - i,
    {
        let key = fields[i].0.clone();
        let value = fields[i].1.clone();
        let kc = chars_of(key.as_str());
        let mut p: usize = 0;
        while p < sorted.len() && key_le_exec(&chars_of(sorted[p].0.as_str()), &kc)
            invariant
                p <= sorted.len(),
                kc@ == key@,
                forall|j: int| 0 <= j < p ==> key_le(#[trigger] sorted@[j].0@, key@),
            decreases sorted.len() - p,
        {
            p += 1;
        }
        let ghost before = pairs_view(sorted@);
        let ghost x = (key@, value@);
        proof {
            if p < sorted.len() {
                lemma_key_le_total(sorted@[p as int].0@, key@);
            }
        }
        sorted.insert(p, (key, value));
        proof {
            let after = pairs_view(sorted@);
            assert(after =~= before.insert(p as int, x));
            assert forall|a: int, b: int| 0 <= a < b < after.len() implies key_le(#[trigger] after[a].0, #[trigger] after[b].0) by {
                if b < p {
                    assert(after[a] == before[a] && after[b] == before[b]);
                } else if b == p {
                    assert(after[a] == before[a]);
                    assert(key_le(sorted@[a].0@, key@));
                } else if a > p {
                    assert(after[a] == before[a - 1] && after[b] == before[b - 1]);
                } else if a == p {
                    assert(after[b] == before[b - 1]);
                    if b - 1 > p {
                        assert(key_le(before[p as int].0, before[b - 1].0));
                        lemma_key_le_transitive(key@, before[p as int].0, before[b - 1].0);
                    }
                } else {
                    assert(after[a] == before[a] && after[b] == before[b - 1]);
                    assert(key_le(before[a].0, key@));
                    if b - 1 >= p {
                        assert(key_le(key@, before[p as int].0));
                        if b - 1 > p {
                            assert(key_le(before[p as int].0, before[b - 1].0));
                            lemma_key_le_transitive(key@, before[p as int].0, before[b - 1].0);
                        }
                        lemma_key_le_transitive(before[a].0, key@, before[b - 1].0);
                    }
                }
            }
            lemma_insert_multiset(before, p as int, x);
            assert(after.to_multiset() =~= before.to_multiset().insert(x));
            assert(fields@.subrange(0, i + 1) =~= fields@.subrange(0, i as int).push(fields@[i as int]));
            assert(x == (fields@[i as int].0@, fields@[i as int].1@));
            assert(pairs_view(fields@.subrange(0, i + 1)) =~= pairs_view(fields@.subrange(0, i as int)).push(x));
            pairs_view(fields@.subrange(0, i as int)).to_multiset_ensures();
            assert(pairs_view(fields@.subrange(0, i + 1)).to_multiset()
                =~= pairs_view(fields@.subrange(0, i as int)).to_multiset().insert(x));
        }
        i += 1;
    }
    assert(fields@.subrange(0, fields@.len() as int) =~= fields@);
    sorted
}

fn render(ps: &Vec<(String, String)>) -> (s: String)
    ensures
        s@ == render_members(pairs_view(ps@)),
{
    let mut s = String::new();
    let mut i: usize = 0;
    while i < ps.len()
        invariant
            i <= ps.len(),
            s@ == render_members(pairs_view(ps@.subrange(0, i as int))),
        decreases ps.len() - i,
    {
        let ghost prev = pairs_view(ps@.subrange(0, i as int));
        if i > 0 {
            s.append("; ");
        }
        s.append(ps[i].0.as_str());
        s.append(": ");
        s.append(ps[i].1.as_str());
        let ghost next = pairs_view(ps@.subrange(0, i + 1));
        assert(next.drop_last() =~= prev);
        assert(next.last() == (ps@[i as int].0@, ps@[i as int].1@));
        i += 1;
    }
    assert(ps@.subrange(0, ps@.len() as int) =~= ps@);
    s
}

/// The message a failure's `data` member carries; see [`data_message`].
pub fn fail_data_message(value: &JsonValue) -> (r: Option<String>)
    ensures
        data_message(value@, match r {
            Some(s) => Some(s@),
            None => None,
        }),
{
    match value {
        JsonValue::String(s) => Some(s.clone()),
        JsonValue::Object(entries) => {
            let mut fields: Vec<(String, String)> = Vec::new();
            let mut i: usize = 0;
            proof {
                lemma_view_entries(entries@);
            }
            while i < entries.len()
                invariant
                    i <= entries.len(),
                    view_entries(entries@).len() == entries@.len(),
                    forall|j: int| 0 <= j < entries@.len() ==> #[trigger] view_entries(entries@)[j]
                        == (entries@[j].0@, entries@[j].1@),
                    pairs_view(fields@) == string_members(view_entries(entries@).subrange(0, i as int)),
                decreases entries.len() - i,
            {
                let ghost es = view_entries(entries@);
                assert(es.subrange(0, i + 1).drop_last() =~= es.subrange(0, i as int));
                match &entries[i].1 {
                    JsonValue::String(v) => {
                        fields.push((entries[i].0.clone(), v.clone()));
                        assert(pairs_view(fields@) =~= pairs_view(fields@.drop_last()).push(
                            (entries@[i as int].0@, v@),
                        ));
                    },
                    _ => {},
                }
                i += 1;
            }
            assert(view_entries(entries@).subrange(0, entries@.len() as int) =~= view_entries(entries@));
            if fields.len() == 0 {
                return None;
            }
            let sorted = sort_members(fields);
            let s = render(&sorted);
            assert(keys_sorted(pairs_view(sorted@)));
            Some(s)
        },
        _ => None,
    }
}

// ---------------------------------------------------------------------------
// Failed responses.

/// The standard reason phrase of an HTTP status, as the HTTP library knows it.
pub uninterp spec fn status_reason(status: u16) -> Option<Seq<char>>;

/// `StatusCode::from_u16(status)` then `canonical_reason()`: the standard reason phrase of
/// a status; none for codes outside 100..=999 and for codes without a registered phrase.
#[verifier::external_body]
pub(crate) fn canonical_reason(status: u16) -> (r: Option<String>)
    ensures
        match r {
            Some(s) => status_reason(status) == Some(s@),
            None => status_reason(status) is None,
        },
        (status < 100 || status > 999) ==> r is None,
{
    reqwest::StatusCode::from_u16(status).ok().and_then(|s| s.canonical_reason()).map(str::to_owned)
}

/// Whether `message` is what a failed response reports: the envelope's string `message`,
/// else the message of its `data` member, else the status reason, else `request failed`.
pub open spec fn failure_message(status: u16, body: Seq<u8>, message: Seq<char>) -> bool {
    let envelope = match json_parse(body) {
        Ok(v) => Some(v),
        Err(_) => None,
    };
    let from_message = match envelope {
        Some(v) => v.get_str("message"@),
        None => None,
    };
    let fallback = match status_reason(status) {
        Some(r) => r,
        None => "request failed"@,
    };
    match from_message {
        Some(m) => message == m,
        None => match envelope {
            Some(v) => match v.get("data"@) {
                Some(d) => (data_message(d, Some(message)))
                    || (data_message(d, None) && message == fallback),
                None => message == fallback,
            },
            None => message == fallback,
        },
    }
}

/// The stable error code of a failed response: the envelope's integer `code`.
pub open spec fn failure_code(body: Seq<u8>) -> Option<i64> {
    match json_parse(body) {
        Ok(v) => match v.get("code"@) {
            Some(c) => c.as_i64(),
            None => None,
        },
        Err(_) => None,
    }
}

/// Whether the kept error body may grow.
pub fn error_body_has_room(body: &Vec<u8>) -> (b: bool)
    ensures
        b == (body.len() < MAX_ERROR_BODY),
{
    body.len() < MAX_ERROR_BODY
}

/// Appends as much of `chunk` as fits within [`MAX_ERROR_BODY`].
pub fn push_error_chunk(body: &mut Vec<u8>, chunk: &[u8])
    requires
        old(body).len() <= MAX_ERROR_BODY,
    ensures
        final(body)@ == old(body)@ + chunk@.subrange(
            0,
            if chunk.len() <= MAX_ERROR_BODY - old(body).len() { chunk.len() as int }
            else { MAX_ERROR_BODY - old(body).len() },
        ),
        final(body).len() <= MAX_ERROR_BODY,
{
    let remaining = MAX_ERROR_BODY - body.len();
    let take = if chunk.len() <= remaining { chunk.len() } else { remaining };
    let ghost start = body@;
    let mut i: usize = 0;
    while i < take
        invariant
            take <= chunk.len(),
            i <= take,
            start.len() + take <= MAX_ERROR_BODY,
            body@ == start + chunk@.subrange(0, i as int),
        decreases take - i,
    {
        body.push(chunk[i]);
        i += 1;
        assert(body@ =~= start + chunk@.subrange(0, i as int));
    }
}

/// Whether `e` is the error of a failed response to `method` on `endpoint`: the response's
/// status, request identifier, headers and kept body, with the code and message they carry.
pub open spec fn reports_failure(e: ApiError, method: Method, endpoint: Seq<char>, status: u16,
    request_id: Option<String>, headers: Vec<(String, String)>, body: Seq<u8>) -> bool {
    &&& e.status == status
    &&& e.code == failure_code(body)
    &&& e.request_id == request_id
    &&& e.method@ == method_name(method)
    &&& e.endpoint@ == endpoint
    &&& e.headers == headers
    &&& e.body@ == body
    &&& failure_message(status, body, e.message@)
}

impl ApiError {
    /// Builds the error for a failed response from its status, headers and kept body.
    pub fn from_parts(
        method: Method,
        endpoint: &str,
        status: u16,
        request_id: Option<String>,
        headers: Vec<(String, String)>,
        body: Vec<u8>,
    ) -> (e: ApiError)
        ensures
            e.status == status,
            e.code == failure_code(body@),
            e.request_id == request_id,
            e.method@ == method_name(method),
            e.endpoint@ == endpoint@,
            e.headers == headers,
            e.body == body,
            failure_message(status, body@, e.message@),
    {
        let envelope = match parse_json(body.as_slice()) {
            Ok(v) => Some(v),
            Err(_) => None,
        };
        let mut code: Option<i64> = None;
        let mut message: Option<String> = None;
        match &envelope {
            Some(v) => {
                match v.get("code") {
                    Some(c) => { code = c.as_i64(); },
                    None => {},
                }
                match v.get("message") {
                    Some(m) => match m.as_str() {
                        Some(s) => { message = Some(s.to_owned()); },
                        None => {},
                    },
                    None => {},
                }
                if message.is_none() {
                    match v.get("data") {
                        Some(d) => { message = fail_data_message(d); },
                        None => {},
                    }
                }
            },
            None => {},
        }
        let message = match message {
            Some(m) => m,
            None => match canonical_reason(status) {
                Some(r) => r,
                None => String::from_str("request failed"),
            },
        };
        ApiError {
            status,
            code,
            request_id,
            method: method.as_str().to_owned(),
            endpoint: endpoint.to_owned(),
            headers,
            body,
            message,
        }
    }

    /// `METHOD endpoint: HTTP status: message`.
    pub fn describe(&self) -> (s: String)
        ensures
            s@ == self.method@ + " "@ + self.endpoint@ + ": HTTP "@ + decimal(self.status as nat)
                + ": "@ + self.message@,
    {
        let mut s = self.method.clone();
        s.append(" ");
        s.append(self.endpoint.as_str());
        s.append(": HTTP ");
        let code = u64_to_decimal(self.status as u64);
        s.append(code.as_str());
        s.append(": ");
        s.append(self.message.as_str());
        s
    }
}

} // verus!

verus! {

// ---------------------------------------------------------------------------
// Descriptions of errors.

/// How `Debug` prints a `std::time::Duration` of this many nanoseconds, such as `30s`
/// or `1.5ms`.
pub uninterp spec fn duration_debug_text(nanos: nat) -> Seq<char>;

/// `format!("{:?}", std::time::Duration::new(secs, nanos))` of the span.
#[verifier::external_body]
fn duration_debug(d: Duration) -> (r: String)
    ensures
        r@ == duration_debug_text(d@),
{
    format!("{:?}", std::time::Duration::new(d.as_secs(), d.subsec_nanos()))
}

/// `DecodeError::to_string()`: how the base64 decoder describes a failure.
#[verifier::external_body]
fn base64_error_text(e: &base64::DecodeError) -> (r: String) {
    e.to_string()
}

/// `io::Error::to_string()`: how the operating system describes an I/O failure.
#[verifier::external_body]
fn io_error_text(e: &std::io::Error) -> (r: String) {
    e.to_string()
}

/// The description of each kind of error, as the library prints it.
pub open spec fn error_text(e: Error) -> Option<Seq<char>> {
    match e {
        Error::Configuration(m) => Some("invalid configuration: "@ + m@),
        Error::InvalidArgument(m) => Some("invalid argument: "@ + m@),
        Error::Transport(f) => Some("HTTP transport error: "@ + f.message@),
        Error::Api(a) => Some(a.method@ + " "@ + a.endpoint@ + ": HTTP "@ + decimal(a.status as nat) + ": "@
            + a.message@),
        Error::Command(c) => Some(command_failure_text(c.response.result)),
        Error::Protocol(m) => Some("protocol error: "@ + m@),
        Error::Json(f) => Some("JSON error: "@ + f.message@),
        Error::Timeout(d) => Some("operation timed out after "@ + duration_debug_text(d@)),
        _ => None,
    }
}

impl Error {
    /// A human-readable description of the error; base64 and I/O failures are described
    /// by their own libraries after a `base64 error: ` or `I/O error: ` prefix.
    pub fn describe(&self) -> (s: String)
        ensures
            error_text(*self) matches Some(t) ==> s@ == t,
            self matches Error::Base64(_) ==> crate::text::has_prefix(s@, "base64 error: "@),
            self matches Error::Io(_) ==> crate::text::has_prefix(s@, "I/O error: "@),
    {
        match self {
            Error::Configuration(m) => {
                let mut s = String::from_str("invalid configuration: ");
                s.append(m.as_str());
                s
            },
            Error::InvalidArgument(m) => {
                let mut s = String::from_str("invalid argument: ");
                s.append(m.as_str());
                s
            },
            Error::Transport(f) => {
                let mut s = String::from_str("HTTP transport error: ");
                s.append(f.message.as_str());
                s
            },
            Error::Api(a) => a.describe(),
            Error::Command(c) => c.describe(),
            Error::Protocol(m) => {
                let mut s = String::from_str("protocol error: ");
                s.append(m.as_str());
                s
            },
            Error::Json(f) => {
                let mut s = String::from_str("JSON error: ");
                s.append(f.message.as_str());
                s
            },
            Error::Base64(e) => {
                let mut s = String::from_str("base64 error: ");
                let ghost head = s@;
                let t = base64_error_text(e);
                s.append(t.as_str());
                assert(s@.subrange(0, head.len() as int) =~= head);
                s
            },
            Error::Io(e) => {
                let mut s = String::from_str("I/O error: ");
                let ghost head = s@;
                let t = io_error_text(e);
                s.append(t.as_str());
                assert(s@.subrange(0, head.len() as int) =~= head);
                s
            },
            Error::Timeout(d) => {
                let mut s = String::from_str("operation timed out after ");
                let t = duration_debug(*d);
                s.append(t.as_str());
                s
            },
        }
    }
}

} // verus!
