use createos::call::ApiRequest;
use createos::client::ClientBuilder;
use createos::duration::Duration;
use createos::error::Error;
use createos::instance::{replace_all, self_delete, self_pause, shell_outcome, Instance, WaitStep};
use createos::json::JsonValue;
use createos::models::{CommandResult, ResizeSandboxResponse, RunCommandResponse, Sandbox};
use createos::options::{AttachDiskOptions, DetachDiskOptions, ExecOptions, PaginationOptions, WaitOptions};
use createos::requests::{ForkSandboxRequest, RunCommandRequest};
use createos::transport::Method;
use createos::wire::SandboxStatus;

fn quote(s: &str) -> String {
    let mut out = String::from("\"");
    for c in s.chars() {
        match c {
            '"' => out.push_str("\\\""),
            '\\' => out.push_str("\\\\"),
            _ => out.push(c),
        }
    }
    out.push('"');
    out
}

fn render(value: &JsonValue) -> String {
    match value {
        JsonValue::Null => "null".into(),
        JsonValue::Bool(b) => b.to_string(),
        JsonValue::Number(n) => n.text.clone(),
        JsonValue::String(s) => quote(s),
        JsonValue::Array(items) => {
            let parts: Vec<String> = items.iter().map(render).collect();
            format!("[{}]", parts.join(","))
        }
        JsonValue::Object(members) => {
            let parts: Vec<String> =
                members.iter().map(|(k, v)| format!("{}:{}", quote(k), render(v))).collect();
            format!("{{{}}}", parts.join(","))
        }
    }
}

fn body(request: &ApiRequest) -> String {
    render(request.body.as_ref().expect("request has a body"))
}

fn owner() -> Instance {
    let client = ClientBuilder::new()
        .api_key("owner")
        .base_url("http://127.0.0.1:9/")
        .build(None, None)
        .unwrap();
    let data = Sandbox {
        id: "sb-1".into(),
        status: SandboxStatus::new("running"),
        ..Sandbox::default()
    };
    Instance::new(client.transport, data)
}

fn with_ingress(template: &str) -> Instance {
    let mut instance = owner();
    let mut data = instance.data().clone();
    data.ingress_enabled = true;
    data.ingress_url_template = template.into();
    instance.update(data);
    instance
}

#[test]
fn access_token_requests_use_encoded_sandbox_paths() {
    let instance = owner();
    let cases = [
        (instance.create_access_token(), Method::Post, "/v1/sandboxes/sb%2D1/access-token"),
        (instance.get_access_token(), Method::Get, "/v1/sandboxes/sb%2D1/access-token"),
        (instance.rotate_access_token(), Method::Post, "/v1/sandboxes/sb%2D1/access-token/rotate"),
        (instance.disable_access_token(), Method::Delete, "/v1/sandboxes/sb%2D1/access-token"),
    ];
    for (request, method, path) in cases {
        assert_eq!(request.method, method);
        assert_eq!(request.path, path);
        assert!(request.authenticated);
        assert!(request.body.is_none());
        assert!(request.query.is_empty());
    }
}

#[test]
fn delegated_token_handle_keeps_owner_credentials() {
    let owner = owner();
    assert!(matches!(
        owner.with_access_token("  "),
        Err(Error::InvalidArgument(m)) if m == "sandbox access token must not be empty"
    ));
    let worker = owner.with_access_token("  skp_sb_first \n").unwrap();
    assert_eq!(worker.transport().api_key.as_deref(), Some("skp_sb_first"));
    assert_eq!(owner.transport().api_key.as_deref(), Some("owner"));
    assert_eq!(worker.id(), "sb-1");
    assert_eq!(worker.status().as_str(), "running");
    assert_eq!(worker.transport().base_url, owner.transport().base_url);
}

#[test]
fn run_command_merges_exec_options_and_never_streams() {
    let instance = owner();
    let request = RunCommandRequest {
        command: "echo".into(),
        arguments: vec!["hello".into()],
        standard_input: Some("ignored".into()),
        stream: true,
        ..RunCommandRequest::default()
    };
    let options = ExecOptions {
        standard_input: Some("input".into()),
        environment_variables: Some(vec![("A".into(), "1".into())]),
        ..ExecOptions::default()
    };
    let planned = instance.run_command(request, options);
    assert_eq!(planned.method, Method::Post);
    assert_eq!(planned.path, "/v1/sandboxes/sb%2D1/exec");
    assert_eq!(body(&planned), r#"{"cmd":"echo","args":["hello"],"stdin":"input","env":{"A":"1"}}"#);
    let plain = instance.run_command(
        RunCommandRequest { command: "echo".into(), arguments: vec!["hello".into()], ..Default::default() },
        ExecOptions::default(),
    );
    assert_eq!(body(&plain), r#"{"cmd":"echo","args":["hello"]}"#);
}

#[test]
fn stream_command_asks_for_a_stream_once() {
    let instance = owner();
    let planned = instance.stream_command(
        RunCommandRequest { command: "sh".into(), ..Default::default() },
        ExecOptions::default(),
    );
    assert_eq!(planned.query, vec![("stream".to_string(), "true".to_string())]);
    assert_eq!(body(&planned), r#"{"cmd":"sh","stream":true}"#);
    assert!(planned.options.disable_retry);
}

#[test]
fn shell_runs_bash_login_scripts() {
    let instance = owner();
    let planned = instance.shell("echo hi");
    assert_eq!(body(&planned), r#"{"cmd":"bash","args":["-lc","echo hi"]}"#);
}

#[test]
fn shell_outcome_requires_exit_zero_and_no_agent_error() {
    let reply = |code: i32, error: &str| RunCommandResponse {
        result: CommandResult {
            standard_output: "out".into(),
            standard_error: "err".into(),
            exit_code: code,
            error_message: error.into(),
        },
        execution_milliseconds_bits: 0,
    };
    assert!(shell_outcome(reply(0, "")).is_ok());
    match shell_outcome(reply(2, "")) {
        Err(Error::Command(c)) => {
            assert_eq!(c.response.result.exit_code, 2);
            assert_eq!(c.describe(), "command exited with status 2\nstderr: err");
        }
        other => panic!("{other:?}"),
    }
    match shell_outcome(reply(0, "agent lost")) {
        Err(Error::Command(c)) => {
            assert_eq!(c.describe(), "command exited with status 0\nerror: agent lost\nstderr: err")
        }
        other => panic!("{other:?}"),
    }
}

#[test]
fn auto_pause_accepts_whole_seconds_between_a_minute_and_a_day() {
    let instance = owner();
    let message = "auto-pause timeout must be whole seconds between 1 minute and 24 hours";
    for bad in [Duration::from_secs(59), Duration::from_secs(86_401), Duration::from_millis(60_500)] {
        assert!(matches!(instance.set_auto_pause(Some(bad)), Err(Error::InvalidArgument(m)) if m == message));
    }
    let minute = instance.set_auto_pause(Some(Duration::from_secs(60))).unwrap();
    assert_eq!(minute.method, Method::Patch);
    assert_eq!(minute.path, "/v1/sandboxes/sb%2D1");
    assert_eq!(body(&minute), r#"{"auto_pause_after_seconds":60,"disable_auto_pause":false}"#);
    let day = instance.set_auto_pause(Some(Duration::from_secs(86_400))).unwrap();
    assert_eq!(body(&day), r#"{"auto_pause_after_seconds":86400,"disable_auto_pause":false}"#);
    let off = instance.set_auto_pause(None).unwrap();
    assert_eq!(body(&off), r#"{"disable_auto_pause":true}"#);
}

#[test]
fn wait_for_port_builds_a_bounded_probe() {
    let instance = owner();
    let probe = instance.wait_for_port(None, 8080, Duration::zero()).unwrap();
    assert_eq!(probe.timeout, Duration::from_secs(30));
    assert_eq!(
        body(&probe.request),
        r#"{"cmd":"bash","args":["-c","timeout 30 bash -c 'until (echo > /dev/tcp/127.0.0.1/8080) 2>/dev/null; do sleep 0.25; done'"]}"#
    );
    assert_eq!(probe.request.options.timeout, Some(Duration::from_secs(35)));
    assert!(probe.outcome(0).is_ok());
    assert!(matches!(probe.outcome(124), Err(Error::Timeout(d)) if d == Duration::from_secs(30)));

    let short = instance.wait_for_port(Some("db.internal"), 5432, Duration::from_millis(500)).unwrap();
    assert!(body(&short.request).contains("timeout 1 bash -c 'until (echo > /dev/tcp/db.internal/5432)"));
    assert_eq!(short.request.options.timeout, Some(Duration::from_millis(5_500)));
}

#[test]
fn wait_for_port_rejects_bad_ports_and_hosts() {
    let instance = owner();
    assert!(matches!(
        instance.wait_for_port(None, 0, Duration::zero()),
        Err(Error::InvalidArgument(m)) if m == "port must be between 1 and 65535"
    ));
    assert!(matches!(
        instance.wait_for_port(Some("a b"), 80, Duration::zero()),
        Err(Error::InvalidArgument(m)) if m == "invalid host \"a b\""
    ));
    assert!(matches!(
        instance.wait_for_port(Some(""), 80, Duration::zero()),
        Err(Error::InvalidArgument(m)) if m == "invalid host \"\""
    ));
    assert!(instance.wait_for_port(Some("::1"), 80, Duration::zero()).is_ok());
}

#[test]
fn preview_url_fills_every_port_placeholder() {
    let instance = with_ingress("https://<port>-sb.example.com/<port>");
    let url = instance.preview_url(8080).unwrap();
    assert_eq!(url.serialization, "https://8080-sb.example.com/8080");
    assert!(matches!(
        instance.preview_url(0),
        Err(Error::InvalidArgument(m)) if m == "port must be between 1 and 65535"
    ));
    assert!(matches!(
        owner().preview_url(80),
        Err(Error::InvalidArgument(m)) if m == "sandbox ingress is not enabled"
    ));
    assert!(matches!(
        with_ingress("not a url <port>").preview_url(80),
        Err(Error::Protocol(m)) if m.starts_with("invalid ingress URL: ")
    ));
}

#[test]
fn replace_all_scans_left_to_right_without_overlap() {
    assert_eq!(replace_all("aaa", "aa", "b"), "ba");
    assert_eq!(replace_all("<port><port>", "<port>", "1"), "11");
    assert_eq!(replace_all("none", "<port>", "1"), "none");
}

#[test]
fn lifecycle_replies_update_the_projection() {
    let mut instance = owner();
    assert_eq!(instance.pause().path, "/v1/sandboxes/sb%2D1/pause");
    assert_eq!(instance.resume().path, "/v1/sandboxes/sb%2D1/resume");
    assert_eq!(instance.destroy().method, Method::Delete);
    instance.apply_status(SandboxStatus::new("destroying"));
    assert_eq!(instance.status().as_str(), "destroying");
    let resize = instance.resize(20480);
    assert_eq!(body(&resize), r#"{"disk_mib":20480}"#);
    instance.apply_resize(&ResizeSandboxResponse { id: "sb-1".into(), disk_mib: 20480 });
    assert_eq!(instance.data().disk_mib, 20480);
    assert_eq!(body(&instance.set_ingress(true)), r#"{"ingress_enabled":true}"#);
    assert_eq!(body(&instance.fork(&ForkSandboxRequest::default())), "{}");
}

#[test]
fn network_and_egress_requests() {
    let instance = owner();
    assert_eq!(body(&instance.attach_network("net/1")), r#"{"id":"net/1"}"#);
    assert_eq!(instance.detach_network("net/1").path, "/v1/sandboxes/sb%2D1/networks/net%2F1");
    assert_eq!(body(&instance.set_egress(&vec!["10.0.0.0/8".into()])), r#"{"egress":["10.0.0.0/8"]}"#);
    assert_eq!(body(&instance.recharge_bandwidth(1024)), r#"{"add_bytes":1024}"#);
    assert_eq!(body(&instance.add_ssh_public_keys(&vec!["k".into()])), r#"{"keys":["k"]}"#);
    assert_eq!(instance.egress().method, Method::Get);
    assert_eq!(instance.bandwidth().path, "/v1/sandboxes/sb%2D1/bandwidth");
}

#[test]
fn disk_requests_and_acknowledgement() {
    let instance = owner();
    let attach = instance.attach_disk(AttachDiskOptions {
        disk_id: "d1".into(),
        mount_path: "/data".into(),
        sub_path: None,
    });
    assert_eq!(body(&attach), r#"{"disk_id":"d1","mount_path":"/data"}"#);
    assert!(instance.attach_disk_outcome("sb-1").is_ok());
    assert!(matches!(
        instance.attach_disk_outcome("sb-2"),
        Err(Error::Protocol(m)) if m == "server acknowledged sandbox \"sb-2\""
    ));
    let detach = instance.detach_disk(DetachDiskOptions { disk_id: "d 1".into(), mount_path: "/data".into() });
    assert_eq!(detach.path, "/v1/sandboxes/sb%2D1/disks/d%201");
    assert_eq!(detach.query, vec![("mount_path".to_string(), "/data".to_string())]);
    let list = instance.disks(PaginationOptions { limit: Some(3), offset: 7 });
    assert_eq!(list.path, "/v1/sandboxes/sb%2D1/disks");
    assert_eq!(list.query, vec![("offset".to_string(), "7".to_string())]);
    assert_eq!(list.legacy_key.as_deref(), Some("disks"));
}

#[test]
fn waits_end_on_the_target_or_a_terminal_state() {
    let instance = owner();
    let running = instance.wait_until_running(WaitOptions { timeout: Duration::zero(), ..WaitOptions::default() });
    assert_eq!(running.timeout, Duration::from_secs(120));
    assert!(matches!(running.observe(&SandboxStatus::new("running")), WaitStep::Done));
    assert!(matches!(running.observe(&SandboxStatus::new("creating")), WaitStep::Continue(d) if d == Duration::from_millis(500)));
    assert!(matches!(
        running.observe(&SandboxStatus::new("destroyed")),
        WaitStep::Failed(Error::Protocol(m)) if m == "sandbox entered terminal state destroyed"
    ));
    assert!(running.expired(Duration::from_secs(119)).is_none());
    assert!(matches!(running.expired(Duration::from_secs(120)), Some(Error::Timeout(d)) if d == Duration::from_secs(120)));
    assert_eq!(running.poll(&instance).path, "/v1/sandboxes/sb%2D1");

    let destroyed = instance.wait_until_destroyed(WaitOptions::default());
    assert!(matches!(destroyed.observe(&SandboxStatus::new("destroying")), WaitStep::Continue(_)));
    assert!(matches!(destroyed.observe(&SandboxStatus::new("failed")), WaitStep::Failed(_)));
    let paused = instance.wait_until_paused(WaitOptions { timeout: Duration::from_secs(5), ..WaitOptions::default() });
    assert_eq!(paused.timeout, Duration::from_secs(5));
    assert!(matches!(paused.observe(&SandboxStatus::new("paused")), WaitStep::Done));
}

#[test]
fn self_signals_target_the_local_agent() {
    let pause = self_pause(Some("idle"));
    assert_eq!(pause.url, "http://127.0.0.1:1029/self/pause");
    assert_eq!(pause.query, vec![("reason".to_string(), "idle".to_string())]);
    assert!(pause.outcome(202).is_ok());
    assert!(matches!(
        pause.outcome(404),
        Err(Error::Protocol(m)) if m == "self-pause returned HTTP 404 Not Found"
    ));
    let delete = self_delete(None);
    assert!(delete.query.is_empty());
    assert!(matches!(
        delete.outcome(299),
        Err(Error::Protocol(m)) if m == "self-delete returned HTTP 299 <unknown status code>"
    ));
}
