use createos::duration::Duration;
use createos::error::{ApiError, Error};
use createos::json::JsonValue;
use createos::transport::{
    check_status, json_response, response_failure, status_is_success,
    authenticate, backoff, backoff_with_jitter, decode_envelope, idempotent, request_headers, retry_after, retryable_status,
    sanitized_headers, validate_retry, Method, RequestOptions, RetryOptions, RetryPlan, RetryStep,
};

fn policy(max_retries: u32) -> RetryOptions {
    RetryOptions { max_retries, base_delay: Duration::from_millis(500), max_delay: Duration::from_secs(30) }
}

fn options_with(retry: Option<RetryOptions>, disable_retry: bool) -> RequestOptions {
    RequestOptions { headers: vec![], timeout: None, retry, disable_retry }
}

#[test]
fn idempotent_methods_and_retryable_statuses() {
    assert!(idempotent(Method::Get) && idempotent(Method::Head) && idempotent(Method::Put) && idempotent(Method::Delete));
    assert!(!idempotent(Method::Post) && !idempotent(Method::Patch));
    for status in [429, 503] {
        assert!(retryable_status(Method::Post, status));
    }
    for status in [408, 500, 502, 504] {
        assert!(retryable_status(Method::Get, status));
        assert!(!retryable_status(Method::Post, status));
    }
    assert!(!retryable_status(Method::Get, 404));
}

#[test]
fn retry_plan_follows_the_budget() {
    let mut plan = RetryPlan::new(Method::Get, &RequestOptions::default(), &policy(2)).unwrap();
    assert_eq!(plan.current_attempt(), 0);
    assert!(matches!(plan.on_response(503, Some(Duration::from_secs(7))), RetryStep::Wait(d) if d == Duration::from_secs(7)));
    assert!(matches!(plan.on_failure(false), RetryStep::Wait(_)));
    assert_eq!(plan.current_attempt(), 2);
    assert!(matches!(plan.on_response(503, None), RetryStep::Finish));
    assert_eq!(plan.current_attempt(), 2);
}

#[test]
fn unsafe_failures_timeouts_and_disabled_retries_finish() {
    let mut post = RetryPlan::new(Method::Post, &RequestOptions::default(), &policy(2)).unwrap();
    assert!(matches!(post.on_failure(false), RetryStep::Finish));
    assert!(matches!(post.on_response(500, None), RetryStep::Finish));
    assert!(matches!(post.on_response(429, None), RetryStep::Wait(_)));
    let mut get = RetryPlan::new(Method::Get, &RequestOptions::default(), &policy(2)).unwrap();
    assert!(matches!(get.on_failure(true), RetryStep::Finish));
    let mut disabled = RetryPlan::new(Method::Get, &options_with(None, true), &policy(5)).unwrap();
    assert!(matches!(disabled.on_response(503, None), RetryStep::Finish));
}

#[test]
fn invalid_retry_delays_are_configuration_errors() {
    let zero = RetryOptions { max_retries: 1, base_delay: Duration::zero(), max_delay: Duration::from_secs(1) };
    assert!(matches!(validate_retry(&zero), Err(Error::Configuration(m)) if m == "retry delays are invalid"));
    let inverted = RetryOptions { max_retries: 1, base_delay: Duration::from_secs(2), max_delay: Duration::from_secs(1) };
    assert!(validate_retry(&inverted).is_err());
    assert!(RetryPlan::new(Method::Get, &options_with(Some(inverted), false), &policy(2)).is_err());
    assert!(validate_retry(&RetryOptions::default()).is_ok());
}

#[test]
fn backoff_doubles_and_caps() {
    let retry = policy(3);
    assert_eq!(backoff_with_jitter(0, &retry, 0), Duration::from_millis(500));
    assert_eq!(backoff_with_jitter(3, &retry, 0), Duration::from_millis(4_000));
    assert_eq!(backoff_with_jitter(1, &retry, 250), Duration::from_millis(1_250));
    assert_eq!(backoff_with_jitter(10, &retry, 0), Duration::from_secs(30));
    assert_eq!(backoff_with_jitter(u32::MAX, &retry, 499), Duration::from_secs(30));
    for attempt in 0..5 {
        let d = backoff(attempt, &retry);
        assert!(d.as_nanos() <= Duration::from_secs(30).as_nanos());
        assert!(d.as_nanos() >= backoff_with_jitter(attempt, &retry, 0).as_nanos());
    }
}

#[test]
fn retry_after_reads_seconds_and_dates() {
    assert_eq!(retry_after(" 5 "), Some(Duration::from_secs(5)));
    assert_eq!(retry_after("Wed, 21 Oct 2015 07:28:00 GMT"), Some(Duration::zero()));
    assert_eq!(retry_after("soon"), None);
    assert_eq!(retry_after("-1"), None);
}

#[test]
fn caller_headers_lose_credentials() {
    let headers = vec![
        ("X-Api-Key".to_string(), "attacker".to_string()),
        ("authorization".to_string(), "Bearer attacker".to_string()),
        ("Cookie".to_string(), "session=attacker".to_string()),
        ("x-request-id".to_string(), "abc".to_string()),
        ("x-csrf-token".to_string(), "t".to_string()),
    ];
    assert_eq!(sanitized_headers(&headers), vec![("x-request-id".to_string(), "abc".to_string())]);
}

#[test]
fn protected_requests_need_a_key() {
    assert!(matches!(
        authenticate(&None, true),
        Err(Error::Configuration(m)) if m == "authentication is required: configure an API key"
    ));
    assert!(matches!(authenticate(&Some("k".into()), false), Ok(None)));
    assert!(matches!(authenticate(&Some("k".into()), true), Ok(Some(k)) if k == "k"));
}

#[test]
fn envelopes_yield_data_or_messages() {
    let ok = decode_envelope(Method::Get, "/v1/whoami", 200, br#"{"status":"success","data":{"up":true}}"#).unwrap();
    assert!(matches!(ok.get("up"), Some(JsonValue::Bool(true))));
    assert!(matches!(decode_envelope(Method::Delete, "/x", 204, b"  "), Ok(JsonValue::Null)));
    assert!(matches!(
        decode_envelope(Method::Get, "/x", 200, br#"{"status":"fail","message":"nope"}"#),
        Err(Error::Protocol(m)) if m == "nope"
    ));
    assert!(matches!(
        decode_envelope(Method::Get, "/x", 200, br#"{"status":"fail"}"#),
        Err(Error::Protocol(m)) if m == "unexpected JSend status \"fail\""
    ));
    assert!(matches!(
        decode_envelope(Method::Post, "/x", 200, b"[1]"),
        Err(Error::Protocol(m)) if m.starts_with("decode POST /x JSend envelope: ")
    ));
    assert!(matches!(
        decode_envelope(Method::Get, "/x", 200, br#"{"status":"success"}"#),
        Ok(JsonValue::Null)
    ));
}

#[test]
fn api_errors_keep_status_code_and_message() {
    let error = ApiError::from_parts(
        Method::Get,
        "/v1/whoami",
        401,
        Some("req-1".into()),
        vec![("content-type".into(), "application/json".into())],
        br#"{"status":"error","message":"bad key","code":42}"#.to_vec(),
    );
    assert_eq!(error.status, 401);
    assert_eq!(error.code, Some(42));
    assert_eq!(error.message, "bad key");
    assert_eq!(error.request_id.as_deref(), Some("req-1"));
    assert_eq!(error.describe(), "GET /v1/whoami: HTTP 401: bad key");
    let plain = ApiError::from_parts(Method::Get, "/v1/whoami", 401, None, vec![], b"not json".to_vec());
    assert_eq!(plain.message, "Unauthorized");
    assert_eq!(plain.code, None);
    let unknown = ApiError::from_parts(Method::Get, "/x", 599, None, vec![], vec![]);
    assert_eq!(unknown.message, "request failed");
    let unavailable = ApiError::from_parts(Method::Get, "/x", 503, None, vec![], b"<html>".to_vec());
    assert_eq!(unavailable.message, "Service Unavailable");
}

#[test]
fn failure_data_messages_are_rendered() {
    let error = ApiError::from_parts(
        Method::Post,
        "/v1/sandboxes",
        422,
        None,
        vec![],
        br#"{"status":"fail","data":{"shape":"unknown","name":"taken"}}"#.to_vec(),
    );
    assert_eq!(error.message, "name: taken; shape: unknown");
    let text = ApiError::from_parts(Method::Post, "/x", 400, None, vec![], br#"{"data":"plain words"}"#.to_vec());
    assert_eq!(text.message, "plain words");
}

#[test]
fn requests_send_only_the_configured_key_and_last() {
    let options = RequestOptions {
        headers: vec![
            ("X-Api-Key".into(), "attacker".into()),
            ("x-trace".into(), "1".into()),
            ("Cookie".into(), "s=1".into()),
        ],
        timeout: None,
        retry: None,
        disable_retry: false,
    };
    let sent = request_headers(&options, Some("application/json"), &Some("sdk-key".into()));
    let expected: Vec<(String, String)> = [
        ("x-trace", "1"),
        ("accept", "application/json"),
        ("content-type", "application/json"),
        ("x-api-key", "sdk-key"),
    ]
    .iter()
    .map(|(k, v)| (k.to_string(), v.to_string()))
    .collect();
    assert_eq!(sent, expected);
    let anonymous = request_headers(&options, None, &None);
    assert_eq!(anonymous.len(), 2);
    assert!(anonymous.iter().all(|(k, _)| k != "x-api-key" && k != "X-Api-Key"));
}

#[test]
fn success_statuses_are_the_2xx_range() {
    assert!(!status_is_success(199));
    assert!(status_is_success(200));
    assert!(status_is_success(204));
    assert!(status_is_success(299));
    assert!(!status_is_success(300));
    assert!(!status_is_success(404));
}

#[test]
fn json_calls_fail_with_an_api_error_outside_2xx() {
    let headers = vec![("x-request-id".to_string(), "r-1".to_string())];
    let failed = json_response(Method::Get, "/v1/sandboxes/x", 404, Some("r-1".into()), headers.clone(),
        br#"{"status":"fail","message":"gone","code":7}"#.to_vec());
    match failed {
        Err(Error::Api(e)) => {
            assert_eq!(e.status, 404);
            assert_eq!(e.method, "GET");
            assert_eq!(e.endpoint, "/v1/sandboxes/x");
            assert_eq!(e.message, "gone");
            assert_eq!(e.code, Some(7));
            assert_eq!(e.request_id.as_deref(), Some("r-1"));
            assert_eq!(e.headers, headers);
        }
        _ => panic!("an API error"),
    }
    let ok = json_response(Method::Get, "/x", 200, None, vec![], br#"{"status":"success","data":5}"#.to_vec()).unwrap();
    assert_eq!(ok.as_i64(), Some(5));
    assert!(matches!(
        json_response(Method::Get, "/x", 200, None, vec![], br#"{"status":"error","message":"no"}"#.to_vec()),
        Err(Error::Protocol(m)) if m == "no"
    ));
    assert!(matches!(
        json_response(Method::Get, "/x", 500, None, vec![], b"oops".to_vec()),
        Err(Error::Api(e)) if e.status == 500 && e.message == "Internal Server Error"
    ));
}

#[test]
fn uploads_succeed_exactly_for_2xx() {
    assert!(check_status(Method::Put, "/v1/sandboxes/a/files", 201, None, vec![], vec![]).is_ok());
    assert!(matches!(
        check_status(Method::Put, "/v1/sandboxes/a/files", 413, None, vec![], b"{\"message\":\"too big\"}".to_vec()),
        Err(Error::Api(e)) if e.status == 413 && e.method == "PUT" && e.message == "too big"
    ));
    assert!(matches!(
        response_failure(Method::Delete, "/d", 409, None, vec![], vec![]),
        Error::Api(e) if e.status == 409 && e.endpoint == "/d" && e.message == "Conflict"
    ));
}

#[test]
fn envelopes_may_be_arrays_of_their_three_members() {
    let ok = decode_envelope(Method::Get, "/x", 200, br#"["success",{"up":true},null]"#).unwrap();
    assert!(matches!(ok.get("up"), Some(JsonValue::Bool(true))));
    assert!(matches!(
        decode_envelope(Method::Get, "/x", 200, br#"["fail",null,"nope"]"#),
        Err(Error::Protocol(m)) if m == "nope"
    ));
    assert!(matches!(
        decode_envelope(Method::Get, "/x", 200, br#"["success"]"#),
        Err(Error::Protocol(m)) if m == "decode GET /x JSend envelope: invalid length 1, expected struct Envelope with 3 elements"
    ));
    assert!(matches!(
        decode_envelope(Method::Get, "/x", 200, br#"["success",1,null,2]"#),
        Err(Error::Protocol(m)) if m == "decode GET /x JSend envelope: trailing characters"
    ));
}
