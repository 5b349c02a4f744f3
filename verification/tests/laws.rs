use createos::client::{encode, Client, Pager};
use createos::duration::Duration;
use createos::stream::decode_command_line;
use createos::transport::{
    backoff_with_jitter, sanitized_headers, Method, RequestOptions, RetryOptions, RetryPlan, RetryStep,
};

fn policy(max_retries: u32) -> RetryOptions {
    RetryOptions { max_retries, base_delay: Duration::from_millis(100), max_delay: Duration::from_secs(2) }
}

fn sends_until_done(method: Method, max_retries: u32, failing_status: u16) -> u32 {
    let mut plan = RetryPlan::new(method, &RequestOptions::default(), &policy(max_retries)).unwrap();
    let mut sends = 1;
    while let RetryStep::Wait(_) = plan.on_response(failing_status, Some(Duration::zero())) {
        sends += 1;
    }
    sends
}

#[test]
fn a_request_is_sent_at_most_max_retries_plus_one_times() {
    for max in [0, 1, 2, 5] {
        assert_eq!(sends_until_done(Method::Get, max, 503), max + 1);
        assert_eq!(sends_until_done(Method::Post, max, 500), 1);
    }
}

#[test]
fn backoff_never_exceeds_the_maximum_and_grows() {
    let retry = policy(10);
    let mut previous = 0;
    for attempt in 0..40 {
        let delay = backoff_with_jitter(attempt, &retry, 50).as_nanos();
        assert!(delay <= Duration::from_secs(2).as_nanos());
        assert!(delay >= previous);
        previous = delay;
    }
}

#[test]
fn sanitized_headers_never_carry_credentials() {
    let names = ["Authorization", "PROXY-AUTHORIZATION", "cookie", "Set-Cookie", "x-api-key", "X-Auth-Token", "x-CSRF-token"];
    let mut headers: Vec<(String, String)> = names.iter().map(|n| (n.to_string(), "v".to_string())).collect();
    headers.push(("accept-language".into(), "en".into()));
    assert_eq!(sanitized_headers(&headers), vec![("accept-language".to_string(), "en".to_string())]);
    let plain = vec![("a".to_string(), "1".to_string()), ("b".to_string(), "2".to_string())];
    assert_eq!(sanitized_headers(&plain), plain);
}

#[test]
fn encoded_identifiers_stay_one_segment() {
    for id in ["../admin", "a/b?c#d", "sb-1", "日本", "%2F", ""] {
        let encoded = encode(id);
        assert!(encoded.chars().all(|c| c.is_ascii_alphanumeric() || c == '%'), "{encoded}");
    }
}

#[test]
fn pages_respect_the_limit() {
    let mut pager = Pager::new(&vec![], Some(1_234));
    let mut collected = 0;
    while let Some((size, _)) = pager.next_page() {
        assert!(size <= 500);
        assert!(collected + size <= 1_234);
        pager.record(size, Some(10_000));
        collected += size;
    }
    assert_eq!(collected, 1_234);
}

#[test]
fn builder_values_win_over_environment() {
    let a = Client::builder().api_key("k").base_url("http://a.example").build(Some("x".into()), Some("http://x.example".into())).unwrap();
    let b = Client::builder().api_key("k").base_url("http://a.example").build(None, None).unwrap();
    assert_eq!(a.transport.api_key, b.transport.api_key);
    assert_eq!(a.transport.base_url, b.transport.base_url);
}

#[test]
fn exit_events_come_last() {
    let events = decode_command_line(br#"{"exit_code":0,"stdout":"x","hb":true}"#).unwrap().unwrap().into_events();
    assert_eq!(events.last().unwrap().kind.as_str(), "exit");
    assert!(events.len() <= 5);
}

#[test]
fn distinct_identifiers_get_distinct_encodings() {
    let ids = ["a/b", "a%2Fb", "a b", "a+b", "é", "%C3%A9", ""];
    for (i, x) in ids.iter().enumerate() {
        for y in ids.iter().skip(i + 1) {
            assert_ne!(encode(x), encode(y), "{x} {y}");
        }
    }
}

fn walk(items: &[u32], query: Vec<(String, String)>, limit: Option<usize>) -> (Vec<u32>, Vec<usize>) {
    let mut pager = Pager::new(&query, limit);
    let mut got = Vec::new();
    let mut offsets = Vec::new();
    while let Some((size, offset)) = pager.next_page() {
        offsets.push(offset);
        let start = offset.min(items.len());
        let end = (offset + size).min(items.len()).max(start);
        let page = &items[start..end];
        got.extend_from_slice(page);
        assert!(pager.can_record(page.len()));
        pager.record(page.len(), Some(items.len()));
    }
    let kept = pager.kept(got.len());
    got.truncate(kept);
    (got, offsets)
}

#[test]
fn a_page_walk_returns_the_list_from_its_offset() {
    let items: Vec<u32> = (0..1_234).collect();
    let (got, offsets) = walk(&items, vec![("offset".into(), "700".into())], None);
    assert_eq!(got, items[700..].to_vec());
    assert_eq!(offsets, vec![700, 1_200]);
    let (got, offsets) = walk(&items, vec![], None);
    assert_eq!(got, items);
    assert_eq!(offsets, vec![0, 500, 1_000]);
    let (got, _) = walk(&items, vec![("offset".into(), "10".into())], Some(600));
    assert_eq!(got, items[10..610].to_vec());
    let (got, offsets) = walk(&items, vec![("offset".into(), "5000".into())], None);
    assert!(got.is_empty());
    assert_eq!(offsets, vec![5_000]);
    let (got, offsets) = walk(&items, vec![], Some(0));
    assert!(got.is_empty());
    assert!(offsets.is_empty());
}

#[test]
fn a_page_walk_stops_on_an_empty_page_or_without_a_total() {
    let mut pager = Pager::new(&vec![], None);
    pager.record(0, Some(100));
    assert_eq!(pager.next_page(), None);
    let mut pager = Pager::new(&vec![], None);
    pager.record(20, None);
    assert_eq!(pager.next_page(), None);
    let mut pager = Pager::new(&vec![], None);
    pager.record(20, Some(21));
    assert_eq!(pager.next_page(), Some((500, 20)));
    pager.record(1, Some(21));
    assert_eq!(pager.next_page(), None);
}

#[test]
fn a_whole_command_stream_hands_out_every_event_in_order() {
    let mut reader = createos::stream::CommandReader::new();
    let body = b"{\"hb\":true}\nevent: output\ndata: {\"stdout\":\"a\",\"stderr\":\"b\"}\n\n{\"error\":\"oops\",\"exit_code\":3}\n{\"stdout\":\"tail\"}";
    reader.push_chunk(body).unwrap();
    reader.finish().unwrap();
    let mut events = Vec::new();
    loop {
        match reader.next().unwrap() {
            createos::stream::StreamStep::Item(e) => events.push(format!(
                "{}:{}:{}:{}",
                e.kind.as_str(),
                e.data,
                e.exit_code.map(|c| c.to_string()).unwrap_or_default(),
                e.message
            )),
            createos::stream::StreamStep::Line => {}
            createos::stream::StreamStep::NeedMore => panic!("an ended stream never asks for more"),
            createos::stream::StreamStep::Ended => break,
        }
    }
    assert_eq!(
        events,
        vec!["heartbeat:::", "stdout:a::", "stderr:b::", "error:::oops", "exit::3:", "stdout:tail::"]
    );
    assert!(matches!(reader.next(), Ok(createos::stream::StreamStep::Ended)));
}

#[test]
fn string_maps_name_each_key_once_with_its_last_value() {
    let pairs: Vec<(String, String)> =
        vec![("A".into(), "1".into()), ("B".into(), "2".into()), ("A".into(), "3".into())];
    match createos::json::JsonValue::from_string_pairs(&pairs) {
        createos::json::JsonValue::Object(members) => {
            let names: Vec<&str> = members.iter().map(|(k, _)| k.as_str()).collect();
            assert_eq!(names, vec!["B", "A"]);
            assert!(matches!(&members[1].1, createos::json::JsonValue::String(v) if v == "3"));
            assert!(matches!(&members[0].1, createos::json::JsonValue::String(v) if v == "2"));
        }
        _ => panic!("an object"),
    }
}

fn read_in_chunks(body: &[u8], size: usize) -> Vec<String> {
    let mut reader = createos::stream::CommandReader::new();
    let mut chunks = body.chunks(size);
    let mut events = Vec::new();
    loop {
        match reader.next().unwrap() {
            createos::stream::StreamStep::Item(e) => events.push(format!(
                "{}:{}:{}:{}",
                e.kind.as_str(),
                e.data,
                e.exit_code.map(|c| c.to_string()).unwrap_or_default(),
                e.message
            )),
            createos::stream::StreamStep::Line => {}
            createos::stream::StreamStep::NeedMore => match chunks.next() {
                Some(chunk) => reader.push_chunk(chunk).unwrap(),
                None => reader.finish().unwrap(),
            },
            createos::stream::StreamStep::Ended => return events,
        }
    }
}

#[test]
fn a_command_stream_hands_out_the_same_events_however_it_is_chunked() {
    let body = b"{\"hb\":true}\r\ndata: {\"stdout\":\"a\",\"stderr\":\"b\"}\n\n: note\n{\"error\":\"oops\",\"exit_code\":3}\n{\"stdout\":\"tail\"}";
    let expected = vec!["heartbeat:::", "stdout:a::", "stderr:b::", "error:::oops", "exit::3:", "stdout:tail::"];
    for size in 1..=body.len() {
        assert_eq!(read_in_chunks(body, size), expected, "chunks of {size}");
    }
}
