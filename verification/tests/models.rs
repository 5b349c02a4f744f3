use createos::json::JsonValue;
use createos::stream::decode_stream_line;
use createos::requests::{
    ComputerButtonRequest, ComputerCreateScreenRequest, ComputerScrollRequest, CreateSandboxRequest,
    PtySize,
};
use createos::wire::SandboxStatus;

fn is_empty_object(value: &JsonValue) -> bool {
    matches!(value, JsonValue::Object(members) if members.is_empty())
}

#[test]
fn request_uses_api_wire_names_and_omits_defaults() {
    let request = CreateSandboxRequest {
        shape: "s-4vcpu-4gb".into(),
        ingress_enabled: true,
        ssh_public_keys: vec!["ssh-ed25519 example".into()],
        ..Default::default()
    };
    let value = request.to_json();
    assert_eq!(value.get("shape").and_then(|v| v.as_str()), Some("s-4vcpu-4gb"));
    assert!(matches!(value.get("ingress_enabled"), Some(JsonValue::Bool(true))));
    assert!(value.get("ssh_public_keys").is_none());
    match value.get("ssh_pubkeys") {
        Some(JsonValue::Array(items)) => assert_eq!(items[0].as_str(), Some("ssh-ed25519 example")),
        other => panic!("unexpected ssh_pubkeys member: {other:?}"),
    }
}

#[test]
fn wire_string_types_preserve_unknown_values() {
    let parsed = decode_stream_line(br#""future-state""#).unwrap().unwrap();
    let status = SandboxStatus::new(parsed.as_str().unwrap());
    assert_eq!(status.as_str(), "future-state");
}

#[test]
fn optional_request_defaults_are_omitted_from_the_wire_format() {
    for value in [
        PtySize::default().to_json(),
        ComputerScrollRequest::default().to_json(),
        ComputerButtonRequest::default().to_json(),
        ComputerCreateScreenRequest::default().to_json(),
    ] {
        assert!(is_empty_object(&value), "{value:?}");
    }
}

#[test]
fn template_log_final_field_round_trips() {
    let event = createos::stream::decode_template_log_line(br#"{"final":true,"new_field":42}"#).unwrap().unwrap();
    assert!(event.final_);
    let extra: Vec<(&str, Option<i64>)> = event.extra.iter().map(|(k, v)| (k.as_str(), v.as_i64())).collect();
    assert_eq!(extra, vec![("new_field", Some(42))]);
}

#[test]
fn template_log_events_decode_their_fields() {
    let event = createos::stream::decode_template_log_line(
        br#"data: {"ts":"2024-05-01T12:00:00.5Z","level":"info","line":"step 1","attempt":2,"status":"building","x":null}"#,
    )
    .unwrap()
    .unwrap();
    let ts = event.ts.unwrap();
    assert_eq!((ts.seconds, ts.nanos), (1_714_564_800, 500_000_000));
    assert_eq!((event.level.as_str(), event.line.as_str(), event.attempt), ("info", "step 1", 2));
    assert_eq!(event.status, "building");
    assert!(!event.final_);
    assert_eq!(event.extra.len(), 1);
    assert!(matches!(
        createos::stream::decode_template_log_line(br#"{"ts":"yesterday"}"#),
        Err(createos::error::Error::Protocol(m)) if m == "decode stream event: invalid type for field `ts`"
    ));
    assert!(matches!(
        createos::stream::decode_template_log_line(br#"{"attempt":-1}"#),
        Err(createos::error::Error::Protocol(m)) if m == "decode stream event: invalid type for field `attempt`"
    ));
    assert!(matches!(
        createos::stream::decode_template_log_line(b"[]"),
        Err(createos::error::Error::Protocol(m)) if m == "decode stream event: invalid type: expected a template log event object"
    ));
    assert!(createos::stream::decode_template_log_line(b": keepalive").unwrap().is_none());
}

#[test]
fn json_values_print_as_compact_text() {
    let value = JsonValue::Object(vec![
        ("a\"b".into(), JsonValue::String("line\nnext\t\u{1}\u{1f}\\ é".into())),
        ("n".into(), JsonValue::Number(createos::json::JsonNumber { text: "-12".into(), signed: Some(-12), unsigned: None })),
        ("list".into(), JsonValue::Array(vec![JsonValue::Null, JsonValue::Bool(true), JsonValue::Bool(false), JsonValue::Array(vec![])])),
        ("empty".into(), JsonValue::Object(vec![])),
    ]);
    let text = value.to_text();
    assert_eq!(text, r#"{"a\"b":"line\nnext\t\u0001\u001f\\ é","n":-12,"list":[null,true,false,[]],"empty":{}}"#);
    let reparsed: serde_json::Value = serde_json::from_str(&text).unwrap();
    assert_eq!(reparsed["n"], serde_json::Value::from(-12));
}
