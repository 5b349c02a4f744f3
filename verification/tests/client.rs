use createos::call::{add_opt, attempt_query, is_zero, offset_query};
use createos::client::{decode_page, encode, page_query, readiness_outcome, Client, ClientBuilder, Pager, PAGE_SIZE};
use createos::duration::Duration;
use createos::error::Error;
use createos::json::JsonValue;
use createos::stream::decode_stream_line;
use createos::models::{CreateSandboxResponse, Sandbox};
use createos::options::ListSandboxesOptions;
use createos::requests::CreateSandboxRequest;
use createos::transport::{Method, RetryOptions};
use createos::wire::SandboxStatus;

fn pairs(items: &[(&str, &str)]) -> Vec<(String, String)> {
    items.iter().map(|(k, v)| (k.to_string(), v.to_string())).collect()
}

fn parse_json(text: &[u8]) -> Result<JsonValue, createos::error::Error> {
    decode_stream_line(text).map(|value| value.expect("a JSON document"))
}

fn client() -> Client {
    ClientBuilder::new().api_key("sdk-key").base_url("http://127.0.0.1:1/prefix").build(None, None).unwrap()
}

#[test]
fn builder_values_take_precedence_over_the_environment() {
    let explicit = Client::builder()
        .api_key("  builder-key ")
        .base_url("http://localhost:8080")
        .build(Some("env-key".into()), Some("https://env.example".into()))
        .unwrap();
    assert_eq!(explicit.transport.api_key.as_deref(), Some("builder-key"));
    assert_eq!(explicit.base_url(), "http://localhost:8080/");
    let from_env = Client::builder().build(Some("env-key".into()), Some("https://env.example/api//".into())).unwrap();
    assert_eq!(from_env.transport.api_key.as_deref(), Some("env-key"));
    assert_eq!(from_env.base_url(), "https://env.example/api/");
    let defaults = Client::builder().build(None, None).unwrap();
    assert_eq!(defaults.base_url(), "https://api.sb.createos.sh/");
    assert_eq!(defaults.transport.api_key, None);
    assert_eq!(defaults.transport.timeout, Duration::from_secs(60));
    assert_eq!(defaults.transport.user_agent, "createos-rust-sdk/0.1.0");
    assert_eq!(defaults.transport.retry.max_retries, 2);
    let blank = Client::builder().api_key("   ").build(Some("env-key".into()), None).unwrap();
    assert_eq!(blank.transport.api_key, None);
}

#[test]
fn builder_rejects_invalid_configuration() {
    let message = |r: Result<Client, Error>| match r {
        Err(Error::Configuration(m)) => m,
        other => panic!("{other:?}"),
    };
    assert!(message(Client::builder().base_url("not a url").build(None, None)).starts_with("invalid base URL: "));
    assert_eq!(
        message(Client::builder().base_url("ftp://example.com").build(None, None)),
        "base URL must be an HTTP(S) URL with a host"
    );
    assert_eq!(
        message(Client::builder().base_url("https://user:pw@example.com").build(None, None)),
        "base URL must not contain credentials, a query, or a fragment"
    );
    assert_eq!(
        message(Client::builder().base_url("https://example.com/?q=1").build(None, None)),
        "base URL must not contain credentials, a query, or a fragment"
    );
    assert_eq!(
        message(Client::builder().timeout(Duration::zero()).build(None, None)),
        "timeout must be positive"
    );
    assert_eq!(message(Client::builder().user_agent("  ").build(None, None)), "user agent must not be empty");
    let custom = Client::builder()
        .timeout(Duration::from_secs(30))
        .retry(RetryOptions { max_retries: 3, base_delay: Duration::from_millis(250), max_delay: Duration::from_secs(10) })
        .user_agent("agent/1")
        .build(None, None)
        .unwrap();
    assert_eq!(custom.transport.timeout, Duration::from_secs(30));
    assert_eq!(custom.transport.retry.max_retries, 3);
    assert_eq!(custom.transport.user_agent, "agent/1");
    let no_retry = Client::builder().without_retry().build(None, None).unwrap();
    assert_eq!(no_retry.transport.retry.max_retries, 0);
}

#[test]
fn catalog_requests_omit_authentication_and_keep_the_base_path() {
    let client = client();
    let health = client.health();
    assert!(!health.authenticated);
    assert_eq!(client.transport.url(&health.path, &health.query).unwrap(), "http://127.0.0.1:1/prefix/healthz");
    let readiness = client.readiness();
    assert!(!readiness.authenticated);
    assert!(readiness.options.disable_retry);
    assert_eq!(readiness.path, "/readyz");
    assert!(!client.shapes().authenticated);
    assert_eq!(client.shapes().legacy_key.as_deref(), Some("shapes"));
    assert!(!client.root_file_systems().authenticated);
    assert!(client.who_am_i().authenticated);
    assert!(matches!(client.transport.credential(false), Ok(None)));
    assert!(matches!(client.transport.credential(true), Ok(Some(k)) if k == "sdk-key"));
    assert!(client.hosts().authenticated);
}

#[test]
fn sandbox_lookups_and_lists() {
    let client = client();
    assert_eq!(client.sandbox("sb/1").path, "/v1/sandboxes/sb%2F1");
    assert_eq!(client.sandbox_by_ip("10.0.0.2").path, "/v1/sandboxes/by-ip/10%2E0%2E0%2E2");
    let list = client.sandboxes(ListSandboxesOptions {
        status: Some(SandboxStatus::new(SandboxStatus::RUNNING)),
        limit: Some(10),
        ..Default::default()
    });
    assert_eq!(list.query, pairs(&[("status", "running")]));
    assert_eq!(list.limit, Some(10));
    let url = client
        .transport
        .url("/v1/sandboxes", &page_query(&list.query, 10, 0))
        .unwrap();
    assert_eq!(url, "http://127.0.0.1:1/prefix/v1/sandboxes?status=running&limit=10&offset=0");
}

#[test]
fn created_sandboxes_keep_the_requested_ingress() {
    let client = client();
    let request = CreateSandboxRequest { shape: "s-1vcpu-1gb".into(), ingress_enabled: true, ..Default::default() };
    let planned = client.create_sandbox(&request);
    assert_eq!(planned.method, Method::Post);
    assert_eq!(planned.path, "/v1/sandboxes");
    let created = CreateSandboxResponse {
        id: "sb-9".into(),
        status: SandboxStatus::new("creating"),
        ip_address: "10.0.0.9".into(),
        ingress_url_template: "https://<port>-sb-9.example".into(),
        disk_mib: 4096,
        ..Default::default()
    };
    let instance = client.created_instance(created, &request);
    let data: &Sandbox = instance.data();
    assert_eq!(data.id, "sb-9");
    assert_eq!(data.ip_address.as_deref(), Some("10.0.0.9"));
    assert!(data.ingress_enabled);
    assert_eq!(data.disk_mib, 4096);
    assert_eq!(instance.preview_url(3000).unwrap().serialization, "https://3000-sb-9.example/");
}

#[test]
fn pager_walks_pages_until_the_total_or_the_limit() {
    let mut pager = Pager::new(&pairs(&[("offset", "10")]), Some(600));
    assert_eq!(pager.next_page(), Some((PAGE_SIZE, 10)));
    pager.record(500, Some(2000));
    assert_eq!(pager.next_page(), Some((100, 510)));
    pager.record(100, Some(2000));
    assert_eq!(pager.next_page(), None);
    assert_eq!(pager.kept(650), 600);

    let mut unlimited = Pager::new(&vec![], None);
    assert_eq!(unlimited.next_page(), Some((500, 0)));
    unlimited.record(3, Some(3));
    assert_eq!(unlimited.next_page(), None);
    let mut no_total = Pager::new(&pairs(&[("offset", "x")]), None);
    assert_eq!(no_total.next_page(), Some((500, 0)));
    no_total.record(7, None);
    assert_eq!(no_total.next_page(), None);
    assert_eq!(
        page_query(&pairs(&[("status", "a"), ("limit", "9"), ("offset", "1")]), 5, 20),
        pairs(&[("status", "a"), ("limit", "5"), ("offset", "20")])
    );
}

#[test]
fn page_requests_follow_the_pager() {
    let client = client();
    let paged = client.sandboxes(ListSandboxesOptions {
        status: Some(SandboxStatus::new("paused")),
        limit: Some(2),
        ..Default::default()
    });
    let mut pager = Pager::new(&paged.query, paged.limit);
    let first = pager.page_request(&paged).unwrap();
    assert_eq!(first.method, Method::Get);
    assert_eq!(first.path, "/v1/sandboxes");
    assert_eq!(first.query, pairs(&[("status", "paused"), ("limit", "2"), ("offset", "0")]));
    assert!(first.authenticated);
    pager.record(2, Some(10));
    assert!(pager.page_request(&paged).is_none());
}

#[test]
fn pages_come_as_arrays_or_wrapped_data() {
    let array = parse_json(br#"[1,2]"#).unwrap();
    let (items, total) = decode_page(array, Some("disks"));
    assert!(matches!(items, JsonValue::Array(ref v) if v.len() == 2));
    assert_eq!(total, None);
    let wrapped = parse_json(br#"{"data":[1],"pagination":{"total":7}}"#).unwrap();
    let (items, total) = decode_page(wrapped, None);
    assert!(matches!(items, JsonValue::Array(ref v) if v.len() == 1));
    assert_eq!(total, Some(7));
    let legacy = parse_json(br#"{"disks":[1,2,3]}"#).unwrap();
    let (items, _) = decode_page(legacy, Some("disks"));
    assert!(matches!(items, JsonValue::Array(ref v) if v.len() == 3));
    let neither = parse_json(br#"{"other":[1]}"#).unwrap();
    let (items, _) = decode_page(neither, Some("disks"));
    assert!(matches!(items, JsonValue::Array(ref v) if v.is_empty()));
}

#[test]
fn readiness_treats_unavailable_as_not_ready() {
    let ready = readiness_outcome(200, br#"{"status":"success","data":{"ready":true}}"#).unwrap();
    assert!(ready.ready);
    let down = readiness_outcome(503, b"<html>").unwrap();
    assert!(!down.ready);
    let detailed = readiness_outcome(503, br#"{"data":{"ready":false,"reason":"db","scheduler_last_ok_ms_ago":9}}"#).unwrap();
    assert_eq!(detailed.reason, "db");
    assert_eq!(detailed.scheduler_last_ok_ms_ago, 9);
    assert!(readiness_outcome(500, b"{}").is_none());
    assert!(readiness_outcome(200, br#"{"data":{"ready":"yes"}}"#).unwrap().ready);
}

#[test]
fn query_helpers() {
    assert!(offset_query(0).is_empty());
    assert_eq!(offset_query(25), pairs(&[("offset", "25")]));
    assert_eq!(attempt_query(Some(3)), pairs(&[("attempt", "3")]));
    assert!(attempt_query(None).is_empty());
    let mut query = vec![];
    add_opt(&mut query, "a", Some("1".into()));
    add_opt(&mut query, "b", None);
    assert_eq!(query, pairs(&[("a", "1")]));
    assert!(is_zero(0));
    assert!(!is_zero(-1));
    assert_eq!(encode("sb-1"), "sb%2D1");
    assert_eq!(encode("é/"), "%C3%A9%2F");
}
