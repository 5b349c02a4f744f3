//! Properties of the library as a whole: retries, backoff, credentials, path segments,
//! pagination, configuration precedence, stream events and readiness.

use vstd::prelude::*;
use crate::call::encoded;
use crate::client::{PAGE_SIZE, chosen_api_key, configured_base_url, page_size, readiness_outcome_spec};
use crate::duration::{Duration, min_nat};
use crate::instance::{auto_pause_valid, sandbox_path, terminal_status, target_status, merged_command, WaitTarget};
use crate::requests::{CreateSandboxRequest, RunCommandRequest};
use crate::stream::process_frame_from_json;
use crate::json::{lookup, text_pairs};
use crate::json::{Json, json_parse, str_object, named_later, last_values, last_values_from, lemma_last_values_distinct};
use crate::stream::{frame_events, takes_line, first_line, stream_events, command_step, command_move, command_line_events,
    ReaderMove, StreamStep};
use crate::text::{hex_upper, digit_char, percent_encode_byte, percent_encode_bytes};
use crate::client::{without_paging, walk_state, walk_next, walk_step, kept_count};
use crate::transport::{Method, Outcome, is_retryable_status, RetryOptions, ascii_lower, backoff_delay, credential_for,
    eq_ignore_ascii_case, is_credential_header, is_idempotent, lemma_pow2_monotone, pow2, sends, sent_headers,
    without_credentials};

verus! {

// ---------------------------------------------------------------------------
// Retries.

proof fn lemma_sends_bounded(method: Method, max_retries: nat, attempt: nat, outcomes: Seq<Outcome>)
    requires
        attempt <= max_retries,
    ensures
        sends(method, max_retries, attempt, outcomes) <= max_retries + 1 - attempt,
    decreases outcomes.len(),
{
    if outcomes.len() > 0 && crate::transport::sends_again(method, attempt, max_retries, outcomes[0]) {
        lemma_sends_bounded(method, max_retries, attempt + 1, outcomes.drop_first());
    }
}

/// A request is sent at most `max_retries + 1` times, whatever its attempts end with.
pub proof fn law_request_sent_at_most_retries_plus_one(method: Method, max_retries: nat, outcomes: Seq<Outcome>)
    ensures
        sends(method, max_retries, 0, outcomes) <= max_retries + 1,
{
    lemma_sends_bounded(method, max_retries, 0, outcomes);
}

/// With retries disabled a request is sent once.
pub proof fn law_disabled_retry_sends_once(method: Method, outcomes: Seq<Outcome>)
    ensures
        sends(method, 0, 0, outcomes) <= 1,
{
    lemma_sends_bounded(method, 0, 0, outcomes);
}

/// A request whose method is not idempotent is not sent again after it failed without a
/// response, since it may have taken effect.
pub proof fn law_failed_unsafe_request_is_not_resent(method: Method, max_retries: nat, outcomes: Seq<Outcome>)
    requires
        !is_idempotent(method),
        outcomes.len() > 0,
        outcomes[0] is Failure,
    ensures
        sends(method, max_retries, 0, outcomes) == 1,
{
}

/// A request that timed out is not sent again.
pub proof fn law_timed_out_request_is_not_resent(method: Method, max_retries: nat, outcomes: Seq<Outcome>)
    requires
        outcomes.len() > 0,
        outcomes[0] == Outcome::Failure(true),
    ensures
        sends(method, max_retries, 0, outcomes) == 1,
{
}

/// The delay before any retry is at most the policy's maximum delay.
pub proof fn law_backoff_never_exceeds_max_delay(attempt: u32, retry: RetryOptions, jitter_ms: nat)
    ensures
        backoff_delay(attempt, retry, jitter_ms) <= retry.max_delay@,
{
}

/// With the same jitter, later retries wait at least as long as earlier ones.
pub proof fn law_backoff_grows_with_attempts(earlier: u32, later: u32, retry: RetryOptions, jitter_ms: nat)
    requires
        earlier <= later,
    ensures
        backoff_delay(earlier, retry, jitter_ms) <= backoff_delay(later, retry, jitter_ms),
{
    let a: nat = if earlier <= 30 { earlier as nat } else { 30 };
    let b: nat = if later <= 30 { later as nat } else { 30 };
    lemma_pow2_monotone(a, b);
    vstd::arithmetic::mul::lemma_mul_inequality(pow2(a) as int, pow2(b) as int, retry.base_delay@ as int);
    assert(retry.base_delay@ * pow2(a) <= retry.base_delay@ * pow2(b)) by {
        vstd::arithmetic::mul::lemma_mul_is_commutative(pow2(a) as int, retry.base_delay@ as int);
        vstd::arithmetic::mul::lemma_mul_is_commutative(pow2(b) as int, retry.base_delay@ as int);
    }
}

// ---------------------------------------------------------------------------
// Credentials.

/// No header that carries credentials survives sanitizing caller headers, so callers can
/// neither replace the API key nor add other credentials.
pub proof fn law_sanitized_headers_carry_no_credentials(headers: Seq<(Seq<char>, Seq<char>)>)
    ensures
        forall|i: int| 0 <= i < without_credentials(headers).len()
            ==> !is_credential_header(#[trigger] without_credentials(headers)[i].0),
    decreases headers.len(),
{
    if headers.len() > 0 {
        law_sanitized_headers_carry_no_credentials(headers.drop_last());
        let rest = without_credentials(headers.drop_last());
        if !is_credential_header(headers.last().0) {
            let all = rest.push(headers.last());
            assert(without_credentials(headers) == all);
            assert forall|i: int| 0 <= i < all.len() implies !is_credential_header(#[trigger] all[i].0) by {
                if i < rest.len() {
                    assert(all[i] == rest[i]);
                }
            }
        } else {
            assert(without_credentials(headers) == rest);
        }
    }
}

/// The only credential a request is sent with is the configured API key, as
/// `x-api-key` and last; without a key, none at all.
pub proof fn law_only_the_configured_key_is_sent(caller: Seq<(Seq<char>, Seq<char>)>,
    content_type: Option<Seq<char>>, key: Option<Seq<char>>)
    ensures
        forall|i: int| 0 <= i < sent_headers(caller, content_type, key).len()
            && is_credential_header((#[trigger] sent_headers(caller, content_type, key)[i]).0) ==> {
                &&& key is Some
                &&& sent_headers(caller, content_type, key)[i] == ("x-api-key"@, key->0)
                &&& i == sent_headers(caller, content_type, key).len() - 1
            },
        key matches Some(k) ==> sent_headers(caller, content_type, key).last() == ("x-api-key"@, k),
{
    law_sanitized_headers_carry_no_credentials(caller);
    reveal_strlit("accept");
    reveal_strlit("content-type");
    reveal_strlit("x-api-key");
    reveal_strlit("authorization");
    reveal_strlit("proxy-authorization");
    reveal_strlit("cookie");
    reveal_strlit("set-cookie");
    reveal_strlit("x-auth-token");
    reveal_strlit("x-csrf-token");
    let clean = without_credentials(caller);
    let a = clean.push(("accept"@, "application/json"@));
    assert(!is_credential_header("accept"@)) by {
        assert(!eq_ignore_ascii_case("accept"@, "cookie"@)) by {
            assert(ascii_lower("accept"@[0]) != ascii_lower("cookie"@[0]));
        }
    }
    assert(!is_credential_header("content-type"@)) by {
        assert("content-type"@.len() == 12);
        assert(!eq_ignore_ascii_case("content-type"@, "x-auth-token"@)) by {
            assert(ascii_lower("content-type"@[0]) != ascii_lower("x-auth-token"@[0]));
        }
        assert(!eq_ignore_ascii_case("content-type"@, "x-csrf-token"@)) by {
            assert(ascii_lower("content-type"@[0]) != ascii_lower("x-csrf-token"@[0]));
        }
    }
    let b = match content_type { Some(t) => a.push(("content-type"@, t)), None => a };
    assert forall|i: int| 0 <= i < b.len() implies !is_credential_header(#[trigger] b[i].0) by {
        if i < clean.len() {
            assert(b[i] == clean[i]);
        } else if i == clean.len() {
            assert(b[i] == ("accept"@, "application/json"@));
        } else {
            assert(b[i].0 == "content-type"@);
        }
    }
    match key {
        Some(k) => {
            let c = b.push(("x-api-key"@, k));
            assert(sent_headers(caller, content_type, key) == c);
            assert forall|i: int| 0 <= i < c.len() && is_credential_header((#[trigger] c[i]).0) implies
                c[i] == ("x-api-key"@, k) && i == c.len() - 1 by {
                if i < b.len() {
                    assert(c[i] == b[i]);
                }
            }
        },
        None => {
            assert(sent_headers(caller, content_type, key) == b);
        },
    }
}

/// Caller headers that carry no credentials are sent as they are, in their order.
pub proof fn law_plain_headers_pass_unchanged(headers: Seq<(Seq<char>, Seq<char>)>)
    requires
        forall|i: int| 0 <= i < headers.len() ==> !is_credential_header(#[trigger] headers[i].0),
    ensures
        without_credentials(headers) == headers,
    decreases headers.len(),
{
    if headers.len() > 0 {
        law_plain_headers_pass_unchanged(headers.drop_last());
        assert(headers.drop_last().push(headers.last()) =~= headers);
    }
}

/// Requests that need no authentication never carry the API key, whatever is configured.
pub proof fn law_unauthenticated_requests_carry_no_key(api_key: Option<Seq<char>>)
    ensures
        credential_for(api_key, false) == Ok::<Option<Seq<char>>, Seq<char>>(None),
{
}

/// Authenticated requests carry exactly the configured key, and cannot be sent without
/// one.
pub proof fn law_authenticated_requests_carry_the_key(api_key: Option<Seq<char>>)
    ensures
        api_key matches Some(k) ==> credential_for(api_key, true) == Ok::<Option<Seq<char>>, Seq<char>>(Some(k)),
        api_key is None ==> credential_for(api_key, true) is Err,
{
}

// ---------------------------------------------------------------------------
// Path segments.

/// Characters of a percent-encoded segment: ASCII letters, digits and `%`.
pub open spec fn segment_char(c: char) -> bool {
    ('0' <= c && c <= '9') || ('a' <= c && c <= 'z') || ('A' <= c && c <= 'Z') || c == '%'
}

proof fn lemma_hex_segment(n: nat)
    ensures
        segment_char(hex_upper(n)),
{
}

proof fn lemma_byte_segment(b: u8)
    ensures
        forall|i: int| 0 <= i < percent_encode_byte(b).len() ==> segment_char(#[trigger] percent_encode_byte(b)[i]),
{
    lemma_hex_segment((b / 16) as nat);
    lemma_hex_segment((b % 16) as nat);
    if crate::text::is_ascii_alnum_byte(b) {
        let c = b as char;
        assert(c as u32 == b as u32);
        assert(segment_char(c));
    }
}

proof fn lemma_bytes_segment(bytes: Seq<u8>)
    ensures
        forall|i: int| 0 <= i < percent_encode_bytes(bytes).len() ==> segment_char(#[trigger] percent_encode_bytes(bytes)[i]),
    decreases bytes.len(),
{
    if bytes.len() > 0 {
        lemma_bytes_segment(bytes.drop_last());
        lemma_byte_segment(bytes.last());
        let front = percent_encode_bytes(bytes.drop_last());
        let back = percent_encode_byte(bytes.last());
        assert forall|i: int| 0 <= i < percent_encode_bytes(bytes).len() implies segment_char(
            #[trigger] percent_encode_bytes(bytes)[i],
        ) by {
            if i < front.len() {
                assert(percent_encode_bytes(bytes)[i] == front[i]);
            } else {
                assert(percent_encode_bytes(bytes)[i] == back[i - front.len()]);
            }
        }
    }
}

/// An identifier placed in a path is one segment: its encoding holds only ASCII letters,
/// digits and `%`, so no `/`, `?`, `#` or `.` of it can change the endpoint.
pub proof fn law_encoded_identifier_is_one_segment(id: Seq<char>)
    ensures
        forall|i: int| 0 <= i < encoded(id).len() ==> segment_char(#[trigger] encoded(id)[i]),
{
    lemma_bytes_segment(vstd::utf8::encode_utf8(id));
}

proof fn lemma_encoding_from_the_front(bytes: Seq<u8>)
    requires
        bytes.len() > 0,
    ensures
        percent_encode_bytes(bytes) == percent_encode_byte(bytes[0]) + percent_encode_bytes(bytes.drop_first()),
    decreases bytes.len(),
{
    if bytes.len() == 1 {
        assert(bytes.drop_last() =~= Seq::<u8>::empty());
        assert(bytes.drop_first() =~= Seq::<u8>::empty());
        assert(percent_encode_bytes(bytes) =~= percent_encode_byte(bytes[0]) + percent_encode_bytes(bytes.drop_first()));
    } else {
        let init = bytes.drop_last();
        lemma_encoding_from_the_front(init);
        assert(init.drop_first() =~= bytes.drop_first().drop_last());
        assert(bytes.drop_first().last() == bytes.last());
        assert(percent_encode_bytes(bytes) =~= percent_encode_byte(bytes[0]) + percent_encode_bytes(bytes.drop_first()));
    }
}

proof fn lemma_hex_injective(n: nat, m: nat)
    requires
        n < 16,
        m < 16,
        hex_upper(n) == hex_upper(m),
    ensures
        n == m,
{
}

proof fn lemma_byte_encoding_injective(x: u8, y: u8, rest_x: Seq<char>, rest_y: Seq<char>)
    requires
        percent_encode_byte(x) + rest_x == percent_encode_byte(y) + rest_y,
    ensures
        x == y,
        rest_x == rest_y,
{
    let ex = percent_encode_byte(x);
    let ey = percent_encode_byte(y);
    let whole = ex + rest_x;
    assert(whole[0] == ex[0]);
    assert((ey + rest_y)[0] == ey[0]);
    if crate::text::is_ascii_alnum_byte(x) {
        assert((x as char) as u32 == x as u32);
        if crate::text::is_ascii_alnum_byte(y) {
            assert((y as char) as u32 == y as u32);
        } else {
            assert(ey[0] == '%');
        }
        assert(x == y);
    } else {
        assert(ex[0] == '%');
        if crate::text::is_ascii_alnum_byte(y) {
            assert((y as char) as u32 == y as u32);
            assert(false);
        }
        assert(whole[1] == ex[1] && whole[2] == ex[2]);
        assert((ey + rest_y)[1] == ey[1] && (ey + rest_y)[2] == ey[2]);
        lemma_hex_injective((x / 16) as nat, (y / 16) as nat);
        lemma_hex_injective((x % 16) as nat, (y % 16) as nat);
        assert(x == (x / 16) * 16 + x % 16);
        assert(y == (y / 16) * 16 + y % 16);
    }
    assert(ex == ey);
    assert(rest_x =~= whole.subrange(ex.len() as int, whole.len() as int));
    assert(rest_y =~= (ey + rest_y).subrange(ey.len() as int, whole.len() as int));
}

proof fn lemma_encoding_injective(a: Seq<u8>, b: Seq<u8>)
    requires
        percent_encode_bytes(a) == percent_encode_bytes(b),
    ensures
        a == b,
    decreases a.len(),
{
    if a.len() == 0 {
        if b.len() > 0 {
            lemma_encoding_from_the_front(b);
            assert(percent_encode_byte(b[0]).len() >= 1);
            assert(percent_encode_bytes(a).len() == 0);
            assert(percent_encode_bytes(b).len() >= 1);
        }
        assert(b =~= a);
    } else {
        lemma_encoding_from_the_front(a);
        if b.len() == 0 {
            assert(percent_encode_byte(a[0]).len() >= 1);
            assert(percent_encode_bytes(b).len() == 0);
            assert(percent_encode_bytes(a).len() >= 1);
        }
        lemma_encoding_from_the_front(b);
        lemma_byte_encoding_injective(a[0], b[0], percent_encode_bytes(a.drop_first()), percent_encode_bytes(b.drop_first()));
        lemma_encoding_injective(a.drop_first(), b.drop_first());
        assert(a =~= seq![a[0]] + a.drop_first());
        assert(b =~= seq![b[0]] + b.drop_first());
    }
}

/// Distinct identifiers never share an encoding, so distinct sandboxes never share an
/// endpoint.
pub proof fn law_distinct_identifiers_have_distinct_paths(a: Seq<char>, b: Seq<char>, suffix: Seq<char>)
    requires
        a != b,
    ensures
        encoded(a) != encoded(b),
        sandbox_path(a, suffix) != sandbox_path(b, suffix),
{
    broadcast use vstd::utf8::encode_utf8_decode_utf8;
    if encoded(a) == encoded(b) {
        lemma_encoding_injective(vstd::utf8::encode_utf8(a), vstd::utf8::encode_utf8(b));
        assert(vstd::utf8::decode_utf8(vstd::utf8::encode_utf8(a)) == a);
        assert(false);
    }
    if sandbox_path(a, suffix) == sandbox_path(b, suffix) {
        let head = "/v1/sandboxes/"@;
        let pa = sandbox_path(a, suffix);
        let pb = sandbox_path(b, suffix);
        assert(pa.len() == head.len() + encoded(a).len() + suffix.len());
        assert(pb.len() == head.len() + encoded(b).len() + suffix.len());
        assert(encoded(a).len() == encoded(b).len());
        assert(encoded(a) =~= pa.subrange(head.len() as int, (head.len() + encoded(a).len()) as int));
        assert(encoded(b) =~= pb.subrange(head.len() as int, (head.len() + encoded(b).len()) as int));
    }
}

// ---------------------------------------------------------------------------
// Pagination.

/// A page asks for at most 500 items, and with a limit never for more than the limit
/// leaves.
pub proof fn law_pages_respect_the_limit(limit: Option<usize>, collected: nat)
    ensures
        page_size(limit, collected) <= PAGE_SIZE,
        limit matches Some(l) ==> collected + page_size(limit, collected) <= if collected <= l { l as nat } else { collected },
{
}

/// A page query keeps the caller's pairs but never a `limit` or `offset` of its own, so
/// each page names exactly one of each.
pub proof fn law_page_queries_drop_caller_paging(query: Seq<(Seq<char>, Seq<char>)>)
    ensures
        forall|i: int| 0 <= i < without_paging(query).len()
            ==> (#[trigger] without_paging(query)[i]).0 != "limit"@ && without_paging(query)[i].0 != "offset"@,
    decreases query.len(),
{
    if query.len() > 0 {
        law_page_queries_drop_caller_paging(query.drop_last());
        let rest = without_paging(query.drop_last());
        let p = query.last();
        if !(p.0 == "limit"@ || p.0 == "offset"@) {
            assert forall|i: int| 0 <= i < rest.push(p).len() implies (#[trigger] rest.push(p)[i]).0 != "limit"@
                && rest.push(p)[i].0 != "offset"@ by {
                if i < rest.len() {
                    assert(rest.push(p)[i] == rest[i]);
                }
            }
        }
    }
}

/// The page a server holding `items` answers for `size` items at `offset`: the items from
/// there on, at most `size` of them.
pub open spec fn served<T>(items: Seq<T>, size: nat, offset: nat) -> Seq<T> {
    if offset >= items.len() {
        Seq::empty()
    } else if offset + size <= items.len() {
        items.subrange(offset as int, (offset + size) as int)
    } else {
        items.subrange(offset as int, items.len() as int)
    }
}

/// The measure of a walk over `len` items: what it may still collect, and one more page
/// while it is not over.
pub open spec fn walk_measure(len: nat, s: (Option<usize>, nat, nat, bool)) -> nat {
    (if s.1 < len { (len - s.1) as nat } else { 0nat }) + (if s.3 { 0nat } else { 1nat })
}

/// A walk from state `s` over a server that holds `items` and reports their number as
/// the total: the items of each page in order, and the state the walk ends in.
pub open spec fn walk_over<T>(items: Seq<T>, s: (Option<usize>, nat, nat, bool))
    -> (Seq<T>, (Option<usize>, nat, nat, bool))
    decreases walk_measure(items.len(), s),
{
    match walk_next(s) {
        None => (Seq::empty(), s),
        Some((size, offset)) => {
            let page = served(items, size, offset);
            let next = walk_step(s, page.len(), Some(items.len()));
            let (rest, last) = walk_over(items, next);
            (page + rest, last)
        },
    }
}

proof fn lemma_walk_over<T>(items: Seq<T>, s: (Option<usize>, nat, nat, bool))
    requires
        !s.3,
        s.0 matches Some(l) ==> s.2 <= l,
    ensures
        ({
            let (got, last) = walk_over(items, s);
            let lo = if s.1 <= items.len() { s.1 } else { items.len() };
            let left = (items.len() - lo) as nat;
            let want = match s.0 {
                None => left,
                Some(l) => if left <= l - s.2 { left } else { (l - s.2) as nat },
            };
            &&& got == items.subrange(lo as int, (lo + want) as int)
            &&& last.2 == s.2 + got.len()
            &&& walk_next(last) is None
        }),
    decreases walk_measure(items.len(), s),
{
    let len = items.len();
    match walk_next(s) {
        None => {
            // The limit is reached.
            assert(items.subrange(0, 0) =~= Seq::<T>::empty());
            let lo = if s.1 <= len { s.1 } else { len };
            assert(items.subrange(lo as int, lo as int) =~= Seq::<T>::empty());
        },
        Some((size, offset)) => {
            let page = served(items, size, offset);
            let next = walk_step(s, page.len(), Some(len));
            assert(walk_measure(len, next) < walk_measure(len, s));
            if !next.3 {
                lemma_walk_over(items, next);
                let (rest, last) = walk_over(items, next);
                assert(page + rest =~= items.subrange(offset as int, (offset + page.len() + rest.len()) as int));
            } else {
                let lo = if s.1 <= len { s.1 } else { len };
                assert(items.subrange(lo as int, lo as int) =~= Seq::<T>::empty());
                assert(page + Seq::<T>::empty() =~= page);
            }
        },
    }
}

/// A walk that starts at `start`, with `limit`, over a server that holds `items` and
/// answers each page with the items from its offset on, returns exactly the items from
/// `start` on (none when `start` is past the end), at most `limit` of them; it has
/// collected what it returns, and ends over.
pub proof fn law_page_walk_returns_the_list_from_its_offset<T>(items: Seq<T>, limit: Option<usize>, start: nat)
    ensures
        ({
            let (got, last) = walk_over(items, walk_state(limit, start, 0, false));
            let lo = if start <= items.len() { start } else { items.len() };
            let left = (items.len() - lo) as nat;
            let want = match limit {
                None => left,
                Some(l) => if left <= l { left } else { l as nat },
            };
            &&& got == items.subrange(lo as int, (lo + want) as int)
            &&& kept_count(limit, last.2) == got.len()
            &&& walk_next(last) is None
        }),
{
    lemma_walk_over(items, walk_state(limit, start, 0, false));
}

/// A walk is over after an empty page, and after a page without a total.
pub proof fn law_page_walk_stops(s: (Option<usize>, nat, nat, bool), count: nat, total: Option<nat>)
    ensures
        walk_next(walk_step(s, 0, total)) is None,
        walk_next(walk_step(s, count, None)) is None,
        total matches Some(t) && s.1 + count >= t ==> walk_next(walk_step(s, count, total)) is None,
{
}

// ---------------------------------------------------------------------------
// String maps.

proof fn lemma_last_values_keep(pairs: Seq<(Seq<char>, Seq<char>)>, start: int, i: int)
    requires
        0 <= start <= i < pairs.len(),
        !named_later(pairs, i),
    ensures
        last_values_from(pairs, start).contains(pairs[i]),
    decreases i - start,
{
    if start == i {
        assert(last_values_from(pairs, start)[0] == pairs[i]);
    } else {
        lemma_last_values_keep(pairs, start + 1, i);
        let rest = last_values_from(pairs, start + 1);
        let k = choose|k: int| 0 <= k < rest.len() && rest[k] == pairs[i];
        if !named_later(pairs, start) {
            assert((seq![pairs[start]] + rest)[k + 1] == pairs[i]);
        }
    }
}

/// Environment variables and node selectors are sent as a map: each name once, and with
/// the last value given for it.
pub proof fn law_string_maps_name_each_key_once(pairs: Seq<(Seq<char>, Seq<char>)>)
    ensures
        str_object(pairs) matches Json::Object(m) && {
            &&& forall|a: int, b: int| 0 <= a < b < m.len() ==> (#[trigger] m[a]).0 != (#[trigger] m[b]).0
            &&& forall|i: int| 0 <= i < pairs.len() && !named_later(pairs, i)
                ==> m.contains((#[trigger] pairs[i].0, Json::Str(pairs[i].1)))
        },
{
    lemma_last_values_distinct(pairs, 0);
    let kept = last_values(pairs);
    let f = |p: (Seq<char>, Seq<char>)| (p.0, Json::Str(p.1));
    let m = kept.map_values(f);
    assert forall|a: int, b: int| 0 <= a < b < m.len() implies (#[trigger] m[a]).0 != (#[trigger] m[b]).0 by {
        assert(m[a].0 == kept[a].0 && m[b].0 == kept[b].0);
    }
    assert forall|i: int| 0 <= i < pairs.len() && !named_later(pairs, i)
        implies m.contains((#[trigger] pairs[i].0, Json::Str(pairs[i].1))) by {
        lemma_last_values_keep(pairs, 0, i);
        let k = choose|k: int| 0 <= k < kept.len() && kept[k] == pairs[i];
        assert(m[k] == (pairs[i].0, Json::Str(pairs[i].1)));
    }
}

// ---------------------------------------------------------------------------
// Configuration.

/// An API key set on the builder wins over the environment.
pub proof fn law_builder_key_takes_precedence(key: Seq<char>, environment: Option<Seq<char>>, other: Option<Seq<char>>)
    ensures
        chosen_api_key(Some(key), environment) == chosen_api_key(Some(key), other),
{
}

/// A base URL set on the builder wins over the environment.
pub proof fn law_builder_url_takes_precedence(url: Seq<char>, environment: Option<Seq<char>>, other: Option<Seq<char>>)
    ensures
        configured_base_url(Some(url), environment) == configured_base_url(Some(url), other),
{
}

// ---------------------------------------------------------------------------
// Command streams.

/// The events of a frame come at most one of each kind, and the exit event, when the
/// frame has one, comes last.
pub proof fn law_exit_event_comes_last(frame: (Seq<char>, Seq<char>, Option<i32>, Seq<char>, bool))
    ensures
        frame_events(frame).len() <= 5,
        frame.2 matches Some(code) ==> frame_events(frame).last() == ("exit"@, Seq::<char>::empty(), Some(code),
            Seq::<char>::empty()),
        frame.2 is None ==> forall|i: int| 0 <= i < frame_events(frame).len() ==> (#[trigger] frame_events(frame)[i]).2 is None,
{
}

/// Output events always carry output: a frame with empty standard output or error
/// yields no event for it.
pub proof fn law_output_events_carry_data(frame: (Seq<char>, Seq<char>, Option<i32>, Seq<char>, bool))
    ensures
        forall|i: int| 0 <= i < frame_events(frame).len() ==> carries_output(#[trigger] frame_events(frame)[i]),
{
    reveal_strlit("stdout");
    reveal_strlit("stderr");
    reveal_strlit("heartbeat");
    reveal_strlit("error");
    reveal_strlit("exit");
    let f = frame;
    let empty = Seq::<char>::empty();
    assert("heartbeat"@.len() == 9 && "stdout"@.len() == 6 && "stderr"@.len() == 6);
    assert("error"@.len() == 5 && "exit"@.len() == 4);
    assert("stdout"@[3] == 'o' && "stderr"@[3] == 'e');
    let hb = ("heartbeat"@, empty, None::<i32>, empty);
    let out = ("stdout"@, f.0, None::<i32>, empty);
    let err = ("stderr"@, f.1, None::<i32>, empty);
    let agent = ("error"@, empty, None::<i32>, f.3);
    assert(carries_output(hb));
    assert(carries_output(agent));
    let a = if f.4 { seq![hb] } else { Seq::empty() };
    assert forall|i: int| 0 <= i < a.len() implies carries_output(#[trigger] a[i]) by {
        if f.4 {
            assert(a[i] == hb);
        }
    }
    let b = if f.0.len() > 0 { a.push(out) } else { a };
    if f.0.len() > 0 {
        assert(carries_output(out));
        lemma_push_carries(a, out);
    }
    let c = if f.1.len() > 0 { b.push(err) } else { b };
    if f.1.len() > 0 {
        assert(carries_output(err));
        lemma_push_carries(b, err);
    }
    let d = if f.3.len() > 0 { c.push(agent) } else { c };
    if f.3.len() > 0 {
        lemma_push_carries(c, agent);
    }
    match f.2 {
        Some(code) => {
            let exit = ("exit"@, empty, Some(code), empty);
            assert(carries_output(exit));
            lemma_push_carries(d, exit);
            assert(frame_events(frame) == d.push(exit));
        },
        None => {
            assert(frame_events(frame) == d);
        },
    }
}

/// An event carries its output: events of standard output or error have data.
pub open spec fn carries_output(e: (Seq<char>, Seq<char>, Option<i32>, Seq<char>)) -> bool {
    (e.0 == "stdout"@ || e.0 == "stderr"@) ==> e.1.len() > 0
}

proof fn lemma_push_carries(s: Seq<(Seq<char>, Seq<char>, Option<i32>, Seq<char>)>, e: (Seq<char>, Seq<char>, Option<i32>, Seq<char>))
    requires
        forall|i: int| 0 <= i < s.len() ==> carries_output(#[trigger] s[i]),
    ensures
        carries_output(e) ==> forall|i: int| 0 <= i < s.push(e).len() ==> carries_output(#[trigger] s.push(e)[i]),
{
    if carries_output(e) {
        assert forall|i: int| 0 <= i < s.push(e).len() implies carries_output(#[trigger] s.push(e)[i]) by {
            if i < s.len() {
                assert(s.push(e)[i] == s[i]);
            }
        }
    }
}

/// Taking a line from a stream buffer loses and reorders nothing: the line followed by
/// what remains is exactly what was buffered, and the line ends with a line feed
/// unless it is the rest of an ended stream.
pub proof fn law_lines_keep_every_byte(before: Seq<u8>, ended: bool, line: Seq<u8>, after: Seq<u8>)
    requires
        takes_line(before, ended, line, after),
    ensures
        line + after == before,
        line.len() > 0,
        line.last() == 0x0Au8 || (ended && after.len() == 0),
{
    if exists|i: int| 0 <= i < before.len() && before[i] == 0x0Au8
        && (forall|j: int| 0 <= j < i ==> before[j] != 0x0Au8)
        && line == before.subrange(0, i + 1)
        && after == before.subrange(i + 1, before.len() as int) {
        let i = choose|i: int| 0 <= i < before.len() && before[i] == 0x0Au8
            && (forall|j: int| 0 <= j < i ==> before[j] != 0x0Au8)
            && line == before.subrange(0, i + 1)
            && after == before.subrange(i + 1, before.len() as int);
        assert(line + after =~= before);
    } else {
        assert(line + after =~= before);
    }
}

proof fn lemma_line_is_first_line(before: Seq<u8>, line: Seq<u8>, after: Seq<u8>)
    requires
        takes_line(before, true, line, after),
    ensures
        first_line(before) == (line, after),
        before.len() > 0,
{
    if exists|i: int| 0 <= i < before.len() && before[i] == 0x0Au8
        && (forall|j: int| 0 <= j < i ==> before[j] != 0x0Au8)
        && line == before.subrange(0, i + 1)
        && after == before.subrange(i + 1, before.len() as int) {
        let i = choose|i: int| 0 <= i < before.len() && before[i] == 0x0Au8
            && (forall|j: int| 0 <= j < i ==> before[j] != 0x0Au8)
            && line == before.subrange(0, i + 1)
            && after == before.subrange(i + 1, before.len() as int);
        let k = choose|k: int| 0 <= k < before.len() && before[k] == 0x0Au8
            && (forall|j: int| 0 <= j < k ==> before[j] != 0x0Au8);
        if k < i {
            assert(before[k] != 0x0Au8);
        }
        if i < k {
            assert(before[i] != 0x0Au8);
        }
        assert(k == i);
    } else {
        assert(after =~= Seq::<u8>::empty());
    }
}

/// The events handed out by a run of reader steps, in order.
pub open spec fn handed_out(steps: Seq<StreamStep<(Seq<char>, Seq<char>, Option<i32>, Seq<char>)>>)
    -> Seq<(Seq<char>, Seq<char>, Option<i32>, Seq<char>)>
    decreases steps.len(),
{
    if steps.len() == 0 {
        Seq::empty()
    } else {
        let earlier = handed_out(steps.drop_last());
        match steps.last() {
            StreamStep::Item(e) => earlier.push(e),
            _ => earlier,
        }
    }
}

/// Reading a whole command stream: once all of its bytes are received and its input has
/// ended, any run of reader steps hands out the events of its lines in order (for each
/// frame its heartbeat, standard output, standard error, error and exit); what is handed
/// out, what is queued and what the unread bytes carry always make up the events of the
/// whole stream, so nothing is lost, repeated or reordered; and when the run reaches the
/// end, every event has been handed out.
pub proof fn law_command_stream_hands_out_every_event_in_order(
    body: Seq<u8>,
    pending: Seq<Seq<u8>>,
    queued: Seq<Seq<(Seq<char>, Seq<char>, Option<i32>, Seq<char>)>>,
    steps: Seq<StreamStep<(Seq<char>, Seq<char>, Option<i32>, Seq<char>)>>,
)
    requires
        stream_events(body) is Ok,
        pending.len() == steps.len() + 1,
        queued.len() == steps.len() + 1,
        pending[0] == body,
        queued[0].len() == 0,
        forall|i: int| 0 <= i < steps.len() ==> #[trigger] command_step(pending[i], true, queued[i], steps[i],
            pending[i + 1], queued[i + 1]),
    ensures
        stream_events(pending.last()) is Ok,
        handed_out(steps) + queued.last() + stream_events(pending.last())->Ok_0 == stream_events(body)->Ok_0,
        steps.len() > 0 && steps.last() is Ended ==> handed_out(steps) == stream_events(body)->Ok_0,
    decreases steps.len(),
{
    let n = steps.len();
    if n == 0 {
        assert(Seq::<(Seq<char>, Seq<char>, Option<i32>, Seq<char>)>::empty() + queued[0]
            + stream_events(body)->Ok_0 =~= stream_events(body)->Ok_0);
    } else {
        let k = n - 1;
        law_command_stream_hands_out_every_event_in_order(body, pending.drop_last(), queued.drop_last(), steps.drop_last());
        assert(command_step(pending[k], true, queued[k], steps[k], pending[k + 1], queued[k + 1]));
        let before = handed_out(steps.drop_last());
        let p = pending[k];
        let q = queued[k];
        assert(pending.drop_last().last() == p);
        assert(queued.drop_last().last() == q);
        let rest = stream_events(p)->Ok_0;
        assert(before + q + rest == stream_events(body)->Ok_0);
        if q.len() > 0 {
            assert(handed_out(steps) == before.push(q[0]));
            assert(before.push(q[0]) + q.drop_first() + rest =~= before + q + rest);
        } else {
            match steps[k] {
                StreamStep::Line => {
                    let l = choose|l: Seq<u8>| #[trigger] takes_line(p, true, l, pending[k + 1])
                        && command_line_events(l) == Ok::<_, Seq<char>>(queued[k + 1]);
                    lemma_line_is_first_line(p, l, pending[k + 1]);
                    assert(handed_out(steps) == before);
                    assert(stream_events(p) == match stream_events(pending[k + 1]) {
                        Ok(more) => Ok::<_, Seq<char>>(queued[k + 1] + more),
                        Err(e) => Err(e),
                    });
                    assert(before + queued[k + 1] + stream_events(pending[k + 1])->Ok_0 =~= before + q + rest);
                },
                StreamStep::Ended => {
                    assert(handed_out(steps) == before);
                    assert(p =~= Seq::<u8>::empty());
                    assert(before + q + rest =~= before);
                },
                _ => {},
            }
        }
    }
}

/// Once every byte of an ended command stream is read and every event handed out, the
/// only step left is the end.
pub proof fn law_drained_command_stream_ends(
    step: StreamStep<(Seq<char>, Seq<char>, Option<i32>, Seq<char>)>,
    pending: Seq<u8>,
    queued: Seq<(Seq<char>, Seq<char>, Option<i32>, Seq<char>)>,
)
    requires
        command_step(Seq::empty(), true, Seq::empty(), step, pending, queued),
    ensures
        step is Ended,
{
}

proof fn lemma_first_line_feed(s: Seq<u8>, k: int)
    requires
        0 <= k < s.len(),
        s[k] == 0x0Au8,
    ensures
        exists|i: int| 0 <= i <= k && s[i] == 0x0Au8 && (forall|j: int| 0 <= j < i ==> s[j] != 0x0Au8),
    decreases k,
{
    if exists|j: int| 0 <= j < k && s[j] == 0x0Au8 {
        let j = choose|j: int| 0 <= j < k && s[j] == 0x0Au8;
        lemma_first_line_feed(s, j);
    } else {
        assert(forall|j: int| 0 <= j < k ==> s[j] != 0x0Au8);
    }
}

/// Whether bytes end where a line ends: nothing, or up to a line feed.
pub open spec fn cut_at_line(c: Seq<u8>) -> bool {
    c.len() == 0 || c.last() == 0x0Au8
}

/// The events of two runs of lines, one after the other: the first failure, or both.
pub open spec fn then_events(
    a: Result<Seq<(Seq<char>, Seq<char>, Option<i32>, Seq<char>)>, Seq<char>>,
    b: Result<Seq<(Seq<char>, Seq<char>, Option<i32>, Seq<char>)>, Seq<char>>,
) -> Result<Seq<(Seq<char>, Seq<char>, Option<i32>, Seq<char>)>, Seq<char>> {
    match a {
        Err(e) => Err(e),
        Ok(x) => match b {
            Ok(y) => Ok(x + y),
            Err(e) => Err(e),
        },
    }
}

proof fn lemma_first_line_of_concat(c: Seq<u8>, d: Seq<u8>)
    requires
        c.len() > 0,
        c.last() == 0x0Au8,
    ensures
        first_line(c + d) == (first_line(c).0, first_line(c).1 + d),
        first_line(c).0 + first_line(c).1 == c,
        first_line(c).1.len() < c.len(),
        first_line(c).1.len() > 0 ==> first_line(c).1.last() == c.last(),
{
    let cd = c + d;
    lemma_first_line_feed(c, c.len() - 1);
    let i = choose|i: int| 0 <= i < c.len() && c[i] == 0x0Au8
        && (forall|j: int| 0 <= j < i ==> c[j] != 0x0Au8);
    assert(cd[i] == 0x0Au8);
    assert(forall|j: int| 0 <= j < i ==> cd[j] == c[j]);
    let k = choose|k: int| 0 <= k < cd.len() && cd[k] == 0x0Au8
        && (forall|j: int| 0 <= j < k ==> cd[j] != 0x0Au8);
    if k < i {
        assert(cd[k] == c[k]);
    }
    if i < k {
        assert(cd[i] != 0x0Au8);
    }
    assert(k == i);
    let line = c.subrange(0, i + 1);
    let rest = c.subrange(i + 1, c.len() as int);
    assert(first_line(c) == (line, rest));
    assert(cd.subrange(0, i + 1) =~= line);
    assert(cd.subrange(i + 1, cd.len() as int) =~= rest + d);
    assert(line + rest =~= c);
}

proof fn lemma_stream_events_unfold(b: Seq<u8>)
    requires
        b.len() > 0,
    ensures
        stream_events(b) == then_events(command_line_events(first_line(b).0), stream_events(first_line(b).1)),
{
}

proof fn lemma_then_events_assoc(
    a: Result<Seq<(Seq<char>, Seq<char>, Option<i32>, Seq<char>)>, Seq<char>>,
    b: Result<Seq<(Seq<char>, Seq<char>, Option<i32>, Seq<char>)>, Seq<char>>,
    c: Result<Seq<(Seq<char>, Seq<char>, Option<i32>, Seq<char>)>, Seq<char>>,
)
    ensures
        then_events(a, then_events(b, c)) == then_events(then_events(a, b), c),
{
    match (a, b, c) {
        (Ok(x), Ok(y), Ok(z)) => assert(x + (y + z) =~= (x + y) + z),
        _ => {},
    }
}

proof fn lemma_events_split(c: Seq<u8>, d: Seq<u8>)
    requires
        cut_at_line(c),
    ensures
        stream_events(c + d) == then_events(stream_events(c), stream_events(d)),
    decreases c.len(),
{
    if c.len() == 0 {
        assert(c + d =~= d);
        assert(stream_events(c) == Ok::<_, Seq<char>>(Seq::<(Seq<char>, Seq<char>, Option<i32>, Seq<char>)>::empty()));
        match stream_events(d) {
            Ok(y) => assert(Seq::<(Seq<char>, Seq<char>, Option<i32>, Seq<char>)>::empty() + y =~= y),
            Err(_) => {},
        }
    } else {
        lemma_first_line_of_concat(c, d);
        let line = first_line(c).0;
        let rest = first_line(c).1;
        lemma_events_split(rest, d);
        lemma_stream_events_unfold(c);
        lemma_stream_events_unfold(c + d);
        lemma_then_events_assoc(command_line_events(line), stream_events(rest), stream_events(d));
    }
}

proof fn lemma_taken_line(p: Seq<u8>, ended: bool, l: Seq<u8>, after: Seq<u8>)
    requires
        takes_line(p, ended, l, after),
    ensures
        l + after == p,
        l.len() > 0,
        first_line(l) == (l, Seq::<u8>::empty()),
        l.last() == 0x0Au8 || (ended && after.len() == 0),
{
    law_lines_keep_every_byte(p, ended, l, after);
    if exists|i: int| 0 <= i < p.len() && p[i] == 0x0Au8
        && (forall|j: int| 0 <= j < i ==> p[j] != 0x0Au8)
        && l == p.subrange(0, i + 1)
        && after == p.subrange(i + 1, p.len() as int) {
        let i = choose|i: int| 0 <= i < p.len() && p[i] == 0x0Au8
            && (forall|j: int| 0 <= j < i ==> p[j] != 0x0Au8)
            && l == p.subrange(0, i + 1)
            && after == p.subrange(i + 1, p.len() as int);
        assert(l[i] == 0x0Au8);
        assert(forall|j: int| 0 <= j < i ==> l[j] != 0x0Au8);
        let k = choose|k: int| 0 <= k < l.len() && l[k] == 0x0Au8
            && (forall|j: int| 0 <= j < k ==> l[j] != 0x0Au8);
        if k < i {
            assert(l[k] != 0x0Au8);
        }
        if i < k {
            assert(l[i] != 0x0Au8);
        }
        assert(l.subrange(0, i + 1) =~= l);
        assert(l.subrange(i + 1, l.len() as int) =~= Seq::<u8>::empty());
    } else {
        assert(!(exists|i: int| 0 <= i < l.len() && l[i] == 0x0Au8
            && (forall|j: int| 0 <= j < i ==> l[j] != 0x0Au8)));
    }
}

proof fn lemma_line_step(
    read: Seq<u8>,
    p: Seq<u8>,
    ended: bool,
    l: Seq<u8>,
    after: Seq<u8>,
    handed: Seq<(Seq<char>, Seq<char>, Option<i32>, Seq<char>)>,
    events: Seq<(Seq<char>, Seq<char>, Option<i32>, Seq<char>)>,
)
    requires
        cut_at_line(read),
        takes_line(p, ended, l, after),
        command_line_events(l) == Ok::<_, Seq<char>>(events),
        stream_events(read) == Ok::<_, Seq<char>>(handed),
    ensures
        (read + l) + after == read + p,
        cut_at_line(read + l) || (ended && after.len() == 0),
        stream_events(read + l) == Ok::<_, Seq<char>>(handed + events),
{
    lemma_taken_line(p, ended, l, after);
    lemma_events_split(read, l);
    lemma_stream_events_unfold(l);
    assert(stream_events(Seq::<u8>::empty()) == Ok::<_, Seq<char>>(Seq::<(Seq<char>, Seq<char>, Option<i32>, Seq<char>)>::empty()));
    assert(events + Seq::<(Seq<char>, Seq<char>, Option<i32>, Seq<char>)>::empty() =~= events);
    assert((read + l) + after =~= read + (l + after));
    if l.last() == 0x0Au8 {
        assert((read + l).last() == l.last());
    }
}

/// The events handed out by a run of moves on a reader, in order.
pub open spec fn moves_handed_out(moves: Seq<ReaderMove>) -> Seq<(Seq<char>, Seq<char>, Option<i32>, Seq<char>)>
    decreases moves.len(),
{
    if moves.len() == 0 {
        Seq::empty()
    } else {
        let earlier = moves_handed_out(moves.drop_last());
        match moves.last() {
            ReaderMove::Next(StreamStep::Item(e)) => earlier.push(e),
            _ => earlier,
        }
    }
}

/// The bytes received by a run of moves on a reader, in order.
pub open spec fn moves_received(moves: Seq<ReaderMove>) -> Seq<u8>
    decreases moves.len(),
{
    if moves.len() == 0 {
        Seq::empty()
    } else {
        let earlier = moves_received(moves.drop_last());
        match moves.last() {
            ReaderMove::Push(chunk) => earlier + chunk,
            _ => earlier,
        }
    }
}

#[verifier::rlimit(50)]
#[verifier::spinoff_prover]
proof fn lemma_reader_run(
    pending: Seq<Seq<u8>>,
    ended: Seq<bool>,
    queued: Seq<Seq<(Seq<char>, Seq<char>, Option<i32>, Seq<char>)>>,
    moves: Seq<ReaderMove>,
) -> (read: Seq<u8>)
    requires
        pending.len() == moves.len() + 1,
        ended.len() == moves.len() + 1,
        queued.len() == moves.len() + 1,
        pending[0].len() == 0,
        !ended[0],
        queued[0].len() == 0,
        forall|i: int| 0 <= i < moves.len() ==> #[trigger] command_move(pending[i], ended[i], queued[i], moves[i],
            pending[i + 1], ended[i + 1], queued[i + 1]),
    ensures
        moves_received(moves) == read + pending.last(),
        cut_at_line(read) || (ended.last() && pending.last().len() == 0),
        stream_events(read) == Ok::<_, Seq<char>>(moves_handed_out(moves) + queued.last()),
    decreases moves.len(),
{
    let n = moves.len();
    if n == 0 {
        let read = Seq::<u8>::empty();
        assert(read + pending[0] =~= moves_received(moves));
        assert(moves_handed_out(moves) + queued[0] =~= Seq::<(Seq<char>, Seq<char>, Option<i32>, Seq<char>)>::empty());
        read
    } else {
        let k = n - 1;
        let before = lemma_reader_run(pending.drop_last(), ended.drop_last(), queued.drop_last(), moves.drop_last());
        assert(command_move(pending[k], ended[k], queued[k], moves[k], pending[k + 1], ended[k + 1], queued[k + 1]));
        let p = pending[k];
        let q = queued[k];
        let handed = moves_handed_out(moves.drop_last());
        assert(pending.drop_last().last() == p);
        assert(ended.drop_last().last() == ended[k]);
        assert(queued.drop_last().last() == q);
        match moves[k] {
            ReaderMove::Push(chunk) => {
                assert(moves_received(moves) == moves_received(moves.drop_last()) + chunk);
                assert(moves_received(moves) =~= before + pending[k + 1]);
                before
            },
            ReaderMove::Finish => before,
            ReaderMove::Next(step) => {
                if q.len() > 0 {
                    assert(moves_handed_out(moves) == handed.push(q[0]));
                    assert(handed.push(q[0]) + q.drop_first() =~= handed + q);
                    before
                } else {
                    match step {
                        StreamStep::Line => {
                            let l = choose|l: Seq<u8>| #[trigger] takes_line(p, ended[k], l, pending[k + 1])
                                && command_line_events(l) == Ok::<_, Seq<char>>(queued[k + 1]);
                            assert(handed + q =~= handed);
                            lemma_line_step(before, p, ended[k], l, pending[k + 1], handed, queued[k + 1]);
                            assert(moves_received(moves) == moves_received(moves.drop_last()));
                            before + l
                        },
                        _ => before,
                    }
                }
            },
        }
    }
}

/// Reading a command stream however its bytes arrive: for any run of moves on a reader,
/// bytes received in chunks, then the input finished, with steps taken in between, the
/// events handed out are, in order, the events of the lines received (for each frame its
/// heartbeat, standard output, standard error, error and exit), with nothing lost,
/// repeated or reordered; and when the run reaches the end, every event of the whole
/// stream has been handed out.
pub proof fn law_chunked_command_stream_hands_out_every_event_in_order(
    pending: Seq<Seq<u8>>,
    ended: Seq<bool>,
    queued: Seq<Seq<(Seq<char>, Seq<char>, Option<i32>, Seq<char>)>>,
    moves: Seq<ReaderMove>,
)
    requires
        pending.len() == moves.len() + 1,
        ended.len() == moves.len() + 1,
        queued.len() == moves.len() + 1,
        pending[0].len() == 0,
        !ended[0],
        queued[0].len() == 0,
        forall|i: int| 0 <= i < moves.len() ==> #[trigger] command_move(pending[i], ended[i], queued[i], moves[i],
            pending[i + 1], ended[i + 1], queued[i + 1]),
    ensures
        exists|read: Seq<u8>| moves_received(moves) == read + pending.last()
            && stream_events(read) == Ok::<_, Seq<char>>(moves_handed_out(moves) + queued.last()),
        moves.len() > 0 && moves.last() == ReaderMove::Next(StreamStep::Ended) ==>
            stream_events(moves_received(moves)) == Ok::<_, Seq<char>>(moves_handed_out(moves)),
{
    let read = lemma_reader_run(pending, ended, queued, moves);
    if moves.len() > 0 && moves.last() == ReaderMove::Next(StreamStep::Ended) {
        let k = moves.len() - 1;
        assert(command_move(pending[k], ended[k], queued[k], moves[k], pending[k + 1], ended[k + 1], queued[k + 1]));
        assert(moves_handed_out(moves) == moves_handed_out(moves.drop_last()));
        assert(read + pending.last() =~= read);
        assert(moves_handed_out(moves) + queued.last() =~= moves_handed_out(moves));
    }
}

// ---------------------------------------------------------------------------
// Readiness and auto-pause.

/// Readiness answers exactly for 200 and 503; when the body cannot be read, 503 means not
/// ready and 200 means ready.
pub proof fn law_unavailable_means_not_ready(status: u16, body: Seq<u8>)
    ensures
        readiness_outcome_spec(status, body) is Some <==> (status == 200 || status == 503),
        (status == 200 || status == 503) && json_parse(body) is Err ==> readiness_outcome_spec(status, body)
            == Some((status == 200, Seq::<char>::empty(), 0i64)),
{
}

/// An accepted idle timeout is sent as whole seconds from 60 to 86400.
pub proof fn law_auto_pause_seconds_in_range(timeout: Duration)
    requires
        auto_pause_valid(timeout),
    ensures
        60 <= timeout@ / 1_000_000_000 <= 86_400,
        (timeout@ / 1_000_000_000) * 1_000_000_000 == timeout@,
{
    vstd::arithmetic::div_mod::lemma_fundamental_div_mod(timeout@ as int, 1_000_000_000);
}

} // verus!

verus! {

// ---------------------------------------------------------------------------
// What each retried status, wait, command and body means.

/// Which responses are sent again: 429 and 503 for every method; 408, 500, 502 and 504
/// only for GET, HEAD, PUT and DELETE, which may be repeated safely; nothing else. A
/// POST or PATCH that fails with a server error is never sent again.
pub proof fn law_only_safe_methods_retry_server_errors(m: Method, status: u16)
    ensures
        status == 429 || status == 503 ==> is_retryable_status(m, status),
        (m is Get || m is Head || m is Put || m is Delete)
            && (status == 408 || status == 500 || status == 502 || status == 504) ==> is_retryable_status(m, status),
        (m is Post || m is Patch) && is_retryable_status(m, status) ==> status == 429 || status == 503,
        is_retryable_status(m, status) ==> status == 408 || status == 429 || status == 500 || status == 502
            || status == 503 || status == 504,
{
}

/// A wait fails on `error` and `failed`, whatever it waits for; while waiting to run or
/// pause, also on `destroying` and `destroyed`; and on no other status.
pub proof fn law_error_and_failed_end_every_wait(t: WaitTarget, s: Seq<char>)
    ensures
        terminal_status(t, "error"@),
        terminal_status(t, "failed"@),
        !(t is Destroyed) ==> terminal_status(t, "destroying"@) && terminal_status(t, "destroyed"@),
        terminal_status(t, s) ==> s == "error"@ || s == "failed"@ || s == "destroying"@ || s == "destroyed"@,
        t is Running ==> target_status(t) == "running"@,
        t is Paused ==> target_status(t) == "paused"@,
        t is Destroyed ==> target_status(t) == "destroyed"@,
{
}

proof fn lemma_lookup_push(entries: Seq<(Seq<char>, Json)>, e: (Seq<char>, Json), key: Seq<char>)
    ensures
        lookup(entries.push(e), key) == match lookup(entries, key) {
            Some(v) => Some(v),
            None => if e.0 == key { Some(e.1) } else { None },
        },
    decreases entries.len(),
{
    let p = entries.push(e);
    if entries.len() > 0 {
        assert(p[0] == entries[0]);
        assert(p.drop_first() =~= entries.drop_first().push(e));
        lemma_lookup_push(entries.drop_first(), e, key);
        assert(lookup(p, key) == if p[0].0 == key { Some(p[0].1) } else { lookup(p.drop_first(), key) });
        assert(lookup(entries, key) == if entries[0].0 == key { Some(entries[0].1) } else {
            lookup(entries.drop_first(), key) });
    } else {
        assert(p[0] == e);
        assert(p.drop_first() =~= Seq::<(Seq<char>, Json)>::empty());
        assert(lookup(p, key) == if p[0].0 == key { Some(p[0].1) } else { lookup(p.drop_first(), key) });
        assert(lookup(Seq::<(Seq<char>, Json)>::empty(), key) is None);
    }
}

/// A command keeps the stdin of its request unless the options give one: the body sent
/// has a `stdin` member exactly when one of them gives it, holding the options' stdin if
/// they have one and the request's otherwise.
pub proof fn law_command_keeps_its_stdin(request: RunCommandRequest, stdin: Option<String>,
    env: Option<Vec<(String, String)>>, stream: bool)
    ensures
        stdin is None ==> merged_command(request, stdin, env, stream).standard_input == request.standard_input,
        stdin matches Some(s) ==> merged_command(request, stdin, env, stream).standard_input == Some(s),
        merged_command(request, stdin, env, stream).wire().get("stdin"@) == match stdin {
            Some(s) => Some(Json::Str(s@)),
            None => match request.standard_input {
                Some(s) => Some(Json::Str(s@)),
                None => None::<Json>,
            },
        },
{
    let c = merged_command(request, stdin, env, stream);
    reveal_strlit("cmd");
    reveal_strlit("args");
    reveal_strlit("stdin");
    reveal_strlit("env");
    reveal_strlit("stream");
    let m0 = Seq::<(Seq<char>, Json)>::empty();
    let m1 = m0.push(("cmd"@, Json::Str(c.command@)));
    lemma_lookup_push(m0, ("cmd"@, Json::Str(c.command@)), "stdin"@);
    let m2 = if c.arguments@.len() == 0 { m1 } else { m1.push(("args"@, crate::json::str_array(crate::json::strings_view(c.arguments@)))) };
    lemma_lookup_push(m1, ("args"@, crate::json::str_array(crate::json::strings_view(c.arguments@))), "stdin"@);
    let m3 = match c.standard_input { Some(v) => m2.push(("stdin"@, Json::Str(v@))), None => m2 };
    match c.standard_input {
        Some(v) => lemma_lookup_push(m2, ("stdin"@, Json::Str(v@)), "stdin"@),
        None => {},
    }
    let m4 = if c.environment_variables@.len() == 0 { m3 } else { m3.push(("env"@, str_object(text_pairs(c.environment_variables@)))) };
    lemma_lookup_push(m3, ("env"@, str_object(text_pairs(c.environment_variables@))), "stdin"@);
    let m5 = if c.stream { m4.push(("stream"@, Json::Bool(true))) } else { m4 };
    lemma_lookup_push(m4, ("stream"@, Json::Bool(true)), "stdin"@);
    assert("cmd"@.len() == 3 && "args"@.len() == 4 && "env"@.len() == 3 && "stream"@.len() == 6 && "stdin"@.len() == 5);
    assert("cmd"@ != "stdin"@ && "args"@ != "stdin"@ && "env"@ != "stdin"@ && "stream"@ != "stdin"@);
    assert(lookup(m0, "stdin"@) is None);
    assert(lookup(m1, "stdin"@) is None);
    assert(lookup(m2, "stdin"@) is None);
    assert(lookup(m3, "stdin"@) == match c.standard_input { Some(v) => Some(Json::Str(v@)), None => None::<Json> });
    assert(lookup(m5, "stdin"@) == lookup(m3, "stdin"@));
    assert(c.wire() == Json::Object(m5));
}

/// A command is sent with its own names: `cmd` the command; `args` the arguments when
/// there are any; `env` the environment as an object of strings when it is not empty;
/// `stream` true when its output is streamed.
pub proof fn law_command_member_names(c: RunCommandRequest)
    ensures
        c.wire().get("cmd"@) == Some(Json::Str(c.command@)),
        c.wire().get("args"@) == if c.arguments@.len() == 0 { None::<Json> } else {
            Some(crate::json::str_array(crate::json::strings_view(c.arguments@))) },
        c.wire().get("env"@) == if c.environment_variables@.len() == 0 { None::<Json> } else {
            Some(str_object(text_pairs(c.environment_variables@))) },
        c.wire().get("stream"@) == if c.stream { Some(Json::Bool(true)) } else { None::<Json> },
{
    reveal_strlit("cmd");
    reveal_strlit("args");
    reveal_strlit("stdin");
    reveal_strlit("env");
    reveal_strlit("stream");
    assert("cmd"@.len() == 3 && "args"@.len() == 4 && "env"@.len() == 3 && "stream"@.len() == 6 && "stdin"@.len() == 5);
    assert("cmd"@[0] == 'c' && "env"@[0] == 'e');
    lemma_command_member(c, "cmd"@);
    lemma_command_member(c, "args"@);
    lemma_command_member(c, "env"@);
    lemma_command_member(c, "stream"@);
}

proof fn lemma_command_member(c: RunCommandRequest, key: Seq<char>)
    requires
        key == "cmd"@ || key == "args"@ || key == "env"@ || key == "stream"@,
    ensures
        c.wire().get(key) == if key == "cmd"@ { Some(Json::Str(c.command@)) }
            else if key == "args"@ { if c.arguments@.len() == 0 { None::<Json> } else {
                Some(crate::json::str_array(crate::json::strings_view(c.arguments@))) } }
            else if key == "env"@ { if c.environment_variables@.len() == 0 { None::<Json> } else {
                Some(str_object(text_pairs(c.environment_variables@))) } }
            else { if c.stream { Some(Json::Bool(true)) } else { None::<Json> } },
{
    reveal_strlit("cmd");
    reveal_strlit("args");
    reveal_strlit("stdin");
    reveal_strlit("env");
    reveal_strlit("stream");
    assert("cmd"@.len() == 3 && "args"@.len() == 4 && "env"@.len() == 3 && "stream"@.len() == 6 && "stdin"@.len() == 5);
    assert("cmd"@[0] == 'c' && "env"@[0] == 'e');
    let m0 = Seq::<(Seq<char>, Json)>::empty();
    let e1 = ("cmd"@, Json::Str(c.command@));
    lemma_lookup_push(m0, e1, key);
    let m1 = m0.push(e1);
    let e2 = ("args"@, crate::json::str_array(crate::json::strings_view(c.arguments@)));
    let m2 = if c.arguments@.len() == 0 { m1 } else { m1.push(e2) };
    lemma_lookup_push(m1, e2, key);
    let m3 = match c.standard_input { Some(v) => m2.push(("stdin"@, Json::Str(v@))), None => m2 };
    match c.standard_input {
        Some(v) => lemma_lookup_push(m2, ("stdin"@, Json::Str(v@)), key),
        None => {},
    }
    let e4 = ("env"@, str_object(text_pairs(c.environment_variables@)));
    let m4 = if c.environment_variables@.len() == 0 { m3 } else { m3.push(e4) };
    lemma_lookup_push(m3, e4, key);
    let e5 = ("stream"@, Json::Bool(true));
    let m5 = if c.stream { m4.push(e5) } else { m4 };
    lemma_lookup_push(m4, e5, key);
    assert(c.wire() == Json::Object(m5));
}

/// What a page of a list holds: a bare array is its own items and reports no total; an
/// object's items are its `data` member, else the member named by the legacy key, else
/// none; its total is the integer at `pagination.total`.
pub proof fn law_page_members(value: Json, legacy_key: Option<Seq<char>>)
    ensures
        value is Array ==> crate::client::page_items(value, legacy_key) == value
            && crate::client::page_total(value) is None,
        !(value is Array) ==> (value.get("data"@) matches Some(d) ==> crate::client::page_items(value, legacy_key) == d),
        !(value is Array) && value.get("data"@) is None ==> (legacy_key matches Some(k) ==> (value.get(k) matches Some(d)
            ==> crate::client::page_items(value, legacy_key) == d)),
        !(value is Array) && value.get("data"@) is None && legacy_key is None
            ==> crate::client::page_items(value, legacy_key) == Json::Array(Seq::empty()),
        !(value is Array) ==> (value.get("pagination"@) matches Some(p) ==> (p.get("total"@) matches Some(t)
            ==> (t.as_u64() matches Some(n) ==> (n <= usize::MAX ==> crate::client::page_total(value) == Some(n as nat))))),
        !(value is Array) && value.get("pagination"@) is None ==> crate::client::page_total(value) is None,
{
}

/// A sandbox's environment variables are sent under `envs`, as an object of strings, and
/// never under `env`; without variables there is no `envs` member.
pub proof fn law_sandbox_environment_goes_under_envs(r: CreateSandboxRequest)
    ensures
        r.environment_variables@.len() > 0 ==> r.wire().get("envs"@) == Some(str_object(text_pairs(r.environment_variables@))),
        r.environment_variables@.len() == 0 ==> r.wire().get("envs"@) is None,
        r.wire().get("env"@) is None,
{
    reveal_strlit("envs");
    reveal_strlit("env");
    assert("envs"@.len() == 4 && "env"@.len() == 3);
    lemma_create_body_members(r, "envs"@);
    lemma_create_body_members(r, "env"@);
}

#[verifier::rlimit(60)]
#[verifier::spinoff_prover]
proof fn lemma_create_body_members(r: CreateSandboxRequest, key: Seq<char>)
    requires
        key == "envs"@ || key == "env"@,
    ensures
        r.wire().get(key) == if key == "envs"@ && r.environment_variables@.len() > 0 {
            Some(str_object(text_pairs(r.environment_variables@)))
        } else {
            None::<Json>
        },
{
    reveal_strlit("shape");
    reveal_strlit("rootfs");
    reveal_strlit("name");
    reveal_strlit("networks");
    reveal_strlit("disk_mib");
    reveal_strlit("egress");
    reveal_strlit("envs");
    reveal_strlit("env");
    reveal_strlit("ssh_pubkeys");
    reveal_strlit("host_id");
    reveal_strlit("node_selector");
    reveal_strlit("ingress_enabled");
    reveal_strlit("disks");
    reveal_strlit("region");
    reveal_strlit("auto_pause_after_seconds");
    assert("shape"@.len() == 5 && "rootfs"@.len() == 6 && "name"@.len() == 4 && "networks"@.len() == 8
        && "disk_mib"@.len() == 8 && "egress"@.len() == 6 && "ssh_pubkeys"@.len() == 11 && "host_id"@.len() == 7
        && "node_selector"@.len() == 13 && "ingress_enabled"@.len() == 15 && "disks"@.len() == 5
        && "region"@.len() == 6 && "auto_pause_after_seconds"@.len() == 24 && "envs"@.len() == 4 && "env"@.len() == 3);
    assert("name"@[0] == 'n' && "envs"@[0] == 'e');
    let m0 = Seq::<(Seq<char>, Json)>::empty();
    let e1 = ("shape"@, Json::Str(r.shape@));
    lemma_lookup_push(m0, e1, key);
    let m1 = m0.push(e1);
    let m2 = match r.rootfs { Some(v) => m1.push(("rootfs"@, Json::Str(v@))), None => m1 };
    match r.rootfs { Some(v) => lemma_lookup_push(m1, ("rootfs"@, Json::Str(v@)), key), None => {} }
    let m3 = match r.name { Some(v) => m2.push(("name"@, Json::Str(v@))), None => m2 };
    match r.name { Some(v) => lemma_lookup_push(m2, ("name"@, Json::Str(v@)), key), None => {} }
    let e4 = ("networks"@, crate::requests::NetworkEntry::wire_list(r.networks@));
    let m4 = if r.networks@.len() == 0 { m3 } else { m3.push(e4) };
    lemma_lookup_push(m3, e4, key);
    let m5 = match r.disk_mib { Some(v) => m4.push(("disk_mib"@, Json::integer(v as int))), None => m4 };
    match r.disk_mib { Some(v) => lemma_lookup_push(m4, ("disk_mib"@, Json::integer(v as int)), key), None => {} }
    let e6 = ("egress"@, crate::json::str_array(crate::json::strings_view(r.egress_rules@)));
    let m6 = if r.egress_rules@.len() == 0 { m5 } else { m5.push(e6) };
    lemma_lookup_push(m5, e6, key);
    let e7 = ("envs"@, str_object(text_pairs(r.environment_variables@)));
    let m7 = if r.environment_variables@.len() == 0 { m6 } else { m6.push(e7) };
    lemma_lookup_push(m6, e7, key);
    let e8 = ("ssh_pubkeys"@, crate::json::str_array(crate::json::strings_view(r.ssh_public_keys@)));
    let m8 = if r.ssh_public_keys@.len() == 0 { m7 } else { m7.push(e8) };
    lemma_lookup_push(m7, e8, key);
    let m9 = match r.host_id { Some(v) => m8.push(("host_id"@, Json::Str(v@))), None => m8 };
    match r.host_id { Some(v) => lemma_lookup_push(m8, ("host_id"@, Json::Str(v@)), key), None => {} }
    let e10 = ("node_selector"@, str_object(text_pairs(r.node_selector@)));
    let m10 = if r.node_selector@.len() == 0 { m9 } else { m9.push(e10) };
    lemma_lookup_push(m9, e10, key);
    let e11 = ("ingress_enabled"@, Json::Bool(true));
    let m11 = if r.ingress_enabled { m10.push(e11) } else { m10 };
    lemma_lookup_push(m10, e11, key);
    let e12 = ("disks"@, crate::requests::DiskAttachment::wire_list(r.disks@));
    let m12 = if r.disks@.len() == 0 { m11 } else { m11.push(e12) };
    lemma_lookup_push(m11, e12, key);
    let m13 = match r.region { Some(v) => m12.push(("region"@, Json::Str(v@))), None => m12 };
    match r.region { Some(v) => lemma_lookup_push(m12, ("region"@, Json::Str(v@)), key), None => {} }
    let m14 = match r.auto_pause_after_seconds {
        Some(v) => m13.push(("auto_pause_after_seconds"@, Json::integer(v as int))),
        None => m13,
    };
    match r.auto_pause_after_seconds {
        Some(v) => lemma_lookup_push(m13, ("auto_pause_after_seconds"@, Json::integer(v as int)), key),
        None => {},
    }
    assert(lookup(m6, key) is None);
    assert(lookup(m7, key) == if key == "envs"@ && r.environment_variables@.len() > 0 {
        Some(str_object(text_pairs(r.environment_variables@))) } else { None::<Json> });
    assert(lookup(m14, key) == lookup(m7, key));
    assert(r.wire() == Json::Object(m14));
}

/// A process frame's `error` member is the message of its event: an object frame that
/// decodes has `error_message` equal to its string `error` member, and empty without one;
/// its kind is its `type` member.
pub proof fn law_process_frame_error_is_its_message(v: Json)
    ensures
        (v is Object && process_frame_from_json(v) is Ok) ==> {
            let f = process_frame_from_json(v)->Ok_0;
            &&& (v.get("error"@) matches Some(Json::Str(e)) ==> f.error_message == e)
            &&& (v.get("error"@) is None ==> f.error_message.len() == 0)
            &&& (v.get("type"@) matches Some(Json::Str(k)) && f.kind == k)
            &&& (v.get("seq"@) matches Some(Json::Number(_, Some(n), _)) ==> f.sequence == n)
            &&& (v.get("seq"@) is None ==> f.sequence == 0)
            &&& (v.get("stream"@) matches Some(Json::Str(t)) ==> f.stream == t)
            &&& (v.get("data_base64"@) matches Some(Json::Str(d)) ==> f.data_base64 == d)
            &&& (v.get("exit_code"@) matches Some(Json::Number(_, Some(n), _)) ==> f.exit_code == Some(n as i32))
            &&& (v.get("exit_code"@) is None ==> f.exit_code is None)
            &&& (v.get("signal"@) matches Some(Json::Str(g)) ==> f.signal == Some(g))
            &&& (v.get("oldest_available_seq"@) matches Some(Json::Number(_, Some(n), _)) ==> f.oldest_available_seq == n)
        },
{
}

/// A command frame's members are its content: `stdout`, `stderr` and `error` the output
/// and error text (empty when absent), `exit_code` the exit code (none when absent), and
/// `hb` whether it is a heartbeat (not when absent).
pub proof fn law_command_frame_members(v: Json)
    ensures
        (v is Object && crate::stream::command_frame_from_json(v) is Ok) ==> {
            let f = crate::stream::command_frame_from_json(v)->Ok_0;
            &&& (v.get("stdout"@) matches Some(Json::Str(o)) ==> f.0 == o)
            &&& (v.get("stdout"@) is None ==> f.0.len() == 0)
            &&& (v.get("stderr"@) matches Some(Json::Str(e)) ==> f.1 == e)
            &&& (v.get("stderr"@) is None ==> f.1.len() == 0)
            &&& (v.get("exit_code"@) matches Some(Json::Number(_, Some(n), _)) ==> f.2 == Some(n as i32))
            &&& (v.get("exit_code"@) is None ==> f.2 is None)
            &&& (v.get("error"@) matches Some(Json::Str(m)) ==> f.3 == m)
            &&& (v.get("error"@) is None ==> f.3.len() == 0)
            &&& (v.get("hb"@) matches Some(Json::Bool(b)) ==> f.4 == b)
            &&& (v.get("hb"@) is None ==> !f.4)
        },
{
}

/// An envelope object's members are what it means: its `status` string, its `data`
/// (`null` when absent) and its `message` string (none when absent or `null`).
pub proof fn law_envelope_members(v: Json)
    ensures
        (v is Object && crate::transport::envelope_members(v) is Ok) ==> {
            let (status, data, message) = crate::transport::envelope_members(v)->Ok_0;
            &&& v.get("status"@) == Some(Json::Str(status))
            &&& data == match v.get("data"@) { Some(d) => d, None => Json::Null }
            &&& (v.get("message"@) matches Some(Json::Str(m)) ==> message == Some(m))
            &&& (v.get("message"@) is None ==> message is None)
        },
        v is Object && v.get("status"@) is None ==> crate::transport::envelope_members(v) is Err,
{
}

} // verus!
