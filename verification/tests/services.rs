use createos::call::ApiRequest;
use createos::client::ClientBuilder;
use createos::duration::Duration;
use createos::instance::Instance;
use createos::json::JsonValue;
use createos::models::Sandbox;
use createos::options::{
    ComputerListWindowsOptions, ComputerScreenOptions, ComputerScreenshotOptions, GetTemplateOptions,
    ManagedProcessConnectOptions, ManagedProcessDeleteOptions, ManagedProcessWaitOptions, PaginationOptions,
    TemplateLogsOptions,
};
use createos::requests::{
    ComputerClickRequest, ComputerCreateScreenRequest, ComputerDragRequest, ComputerPoint, ComputerTypeRequest,
    DiskConfig, DiskCreateRequest, DiskCredentials, ManagedProcessCreateRequest, PtySize,
};
use createos::services::{screen_query, DisksService, NetworksService, TemplatesService};
use createos::transport::{Method, RequestOptions};
use createos::wire::{ComputerMouseButton, ComputerScreenId, DiskKind, ManagedProcessSignal, ManagedProcessWaitScope, TemplateInclude};

fn quote(s: &str) -> String {
    format!("\"{}\"", s.replace('\\', "\\\\").replace('"', "\\\""))
}

fn render(value: &JsonValue) -> String {
    match value {
        JsonValue::Null => "null".into(),
        JsonValue::Bool(b) => b.to_string(),
        JsonValue::Number(n) => n.text.clone(),
        JsonValue::String(s) => quote(s),
        JsonValue::Array(items) => {
            let parts: Vec<String> = items.iter().map(render).collect();
            format!("[{}]", parts.join(","))
        }
        JsonValue::Object(members) => {
            let parts: Vec<String> =
                members.iter().map(|(k, v)| format!("{}:{}", quote(k), render(v))).collect();
            format!("{{{}}}", parts.join(","))
        }
    }
}

fn body(request: &ApiRequest) -> String {
    render(request.body.as_ref().expect("request has a body"))
}

fn pairs(items: &[(&str, &str)]) -> Vec<(String, String)> {
    items.iter().map(|(k, v)| (k.to_string(), v.to_string())).collect()
}

fn sandbox() -> Instance {
    let client = ClientBuilder::new().api_key("k").build(None, None).unwrap();
    Instance::new(client.transport, Sandbox { id: "sb 1".into(), ..Sandbox::default() })
}

#[test]
fn files_are_addressed_by_query_and_uploads_are_not_retried() {
    let files = sandbox().files();
    let upload = files.upload("/workspace/a b.txt", &RequestOptions::default());
    assert_eq!(upload.method, Method::Put);
    assert_eq!(upload.path, "/v1/sandboxes/sb%201/files");
    assert_eq!(upload.query, pairs(&[("path", "/workspace/a b.txt")]));
    assert!(upload.options.disable_retry);
    let download = files.download("/x", &RequestOptions::default());
    assert_eq!(download.method, Method::Get);
    assert!(!download.options.disable_retry);
}

#[test]
fn process_requests() {
    let processes = sandbox().processes();
    let create = processes.create(&ManagedProcessCreateRequest {
        command: "python3".into(),
        arguments: vec!["-m".into(), "http.server".into()],
        pty: Some(PtySize { rows: 24, cols: 0 }),
        ..Default::default()
    });
    assert_eq!(create.path, "/v1/sandboxes/sb%201/processes");
    assert_eq!(body(&create), r#"{"cmd":"python3","args":["-m","http.server"],"pty":{"rows":24}}"#);
    assert_eq!(processes.get("p/1").path, "/v1/sandboxes/sb%201/processes/p%2F1");
    let connect = processes.connect("p1", &ManagedProcessConnectOptions { after_sequence: -1, ..Default::default() });
    assert_eq!(connect.path, "/v1/sandboxes/sb%201/processes/p1/connect");
    assert_eq!(connect.query, pairs(&[("after", "-1")]));
    assert!(connect.options.disable_retry);
    let input = processes.input("p1", "hi");
    assert_eq!(body(&input), r#"{"data_base64":"aGk="}"#);
    assert_eq!(body(&processes.close_stdin("p1")), "null");
    assert_eq!(body(&processes.resize("p1", &PtySize { rows: 40, cols: 120 })), r#"{"rows":40,"cols":120}"#);
    assert_eq!(
        body(&processes.signal("p1", &ManagedProcessSignal::new(ManagedProcessSignal::TERMINATE))),
        r#"{"signal":"SIGTERM"}"#
    );
    let wait = processes.wait("p1", &ManagedProcessWaitOptions {
        scope: Some(ManagedProcessWaitScope::new(ManagedProcessWaitScope::TREE)),
        wait_timeout: Some(Duration::from_secs(30)),
        ..Default::default()
    });
    assert_eq!(wait.query, pairs(&[("scope", "tree"), ("timeout_ms", "30000")]));
    let wait_plain = processes.wait("p1", &ManagedProcessWaitOptions::default());
    assert!(wait_plain.query.is_empty());
    let delete = processes.delete("p1", &ManagedProcessDeleteOptions {
        grace_period: Some(Duration::from_millis(1500)),
        ..Default::default()
    });
    assert_eq!(delete.method, Method::Delete);
    assert_eq!(delete.query, pairs(&[("grace_ms", "1500")]));
}

#[test]
fn account_collections() {
    let templates = TemplatesService;
    let list = templates.list(PaginationOptions { limit: None, offset: 0 });
    assert_eq!(list.path, "/v1/templates");
    assert!(list.query.is_empty());
    assert_eq!(list.legacy_key.as_deref(), Some("templates"));
    let get = templates.get("t 1", &GetTemplateOptions {
        detail: Some(TemplateInclude::new(TemplateInclude::DOCKERFILE)),
        ..Default::default()
    });
    assert_eq!(get.path, "/v1/templates/t%201");
    assert_eq!(get.query, pairs(&[("include", "dockerfile")]));
    let logs = templates.logs("t1", &TemplateLogsOptions { attempt: Some(2), ..Default::default() });
    assert_eq!(logs.path, "/v1/templates/t1/logs");
    assert_eq!(logs.query, pairs(&[("attempt", "2")]));
    let follow = templates.follow_logs("t1", &TemplateLogsOptions::default());
    assert_eq!(follow.query, pairs(&[("follow", "true")]));
    assert!(follow.options.disable_retry);

    let networks = NetworksService;
    assert_eq!(networks.list(PaginationOptions::default()).legacy_key, None);
    assert_eq!(networks.delete("n1").path, "/v1/networks/n1");

    let disks = DisksService;
    let create = disks.create(&DiskCreateRequest {
        name: "data".into(),
        kind: DiskKind::new(DiskKind::S3),
        config: DiskConfig { bucket: "b".into(), endpoint: "https://s3".into(), region: None, use_path_style: true },
        credentials: DiskCredentials { access_key: "a".into(), secret_key: "s".into() },
    });
    assert_eq!(
        body(&create),
        r#"{"name":"data","kind":"s3","config":{"bucket":"b","endpoint":"https://s3","use_path_style":true},"credentials":{"access_key":"a","secret_key":"s"}}"#
    );
    let rotate = disks.rotate_credentials("data", &DiskCredentials { access_key: "a2".into(), secret_key: "s2".into() });
    assert_eq!(rotate.method, Method::Patch);
    assert_eq!(body(&rotate), r#"{"credentials":{"access_key":"a2","secret_key":"s2"}}"#);
}

#[test]
fn desktop_requests_select_screens() {
    let computer = sandbox().computer();
    let screen = ComputerScreenOptions {
        screen_id: Some(ComputerScreenId::new(ComputerScreenId::SCREEN_1)),
        ..Default::default()
    };
    assert_eq!(screen_query(&screen.screen_id), pairs(&[("screen_id", "screen-1")]));
    let shot = computer.screenshot(&ComputerScreenshotOptions {
        screen: ComputerScreenOptions {
            screen_id: Some(ComputerScreenId::new(ComputerScreenId::SCREEN_1)),
            ..Default::default()
        },
        x: Some(-5),
        height: Some(100),
        ..Default::default()
    });
    assert_eq!(shot.path, "/v1/sandboxes/sb%201/computer/screenshot");
    assert_eq!(shot.query, pairs(&[("screen_id", "screen-1"), ("x", "-5"), ("height", "100")]));
    let click = computer.mouse().click(
        &ComputerClickRequest { button: Some(ComputerMouseButton::new("left")), x: Some(1), ..Default::default() },
        &screen,
    );
    assert_eq!(click.path, "/v1/sandboxes/sb%201/computer/mouse/click");
    assert_eq!(body(&click), r#"{"button":"left","x":1}"#);
    let drag = computer.mouse().drag(
        &ComputerDragRequest { from: ComputerPoint { x: 0, y: 0 }, to: ComputerPoint { x: 3, y: -4 } },
        &ComputerScreenOptions::default(),
    );
    assert_eq!(body(&drag), r#"{"from":{"x":0,"y":0},"to":{"x":3,"y":-4}}"#);
    assert!(drag.query.is_empty());
    let typed = computer.keyboard().type_text(
        &ComputerTypeRequest { text: "hi".into(), delay_ms: Some(5) },
        &ComputerScreenOptions::default(),
    );
    assert_eq!(body(&typed), r#"{"text":"hi","delay_in_ms":5}"#);
    let keys = computer.keyboard().press(&vec!["ctrl".into(), "c".into()], &ComputerScreenOptions::default());
    assert_eq!(body(&keys), r#"{"keys":["ctrl","c"]}"#);
    let windows = computer.windows();
    let list = windows.list(&ComputerListWindowsOptions { application: Some("xterm".into()), ..Default::default() });
    assert_eq!(list.query, pairs(&[("application", "xterm")]));
    assert_eq!(windows.focus("w:1", &screen).path, "/v1/sandboxes/sb%201/computer/windows/w%3A1/focus");
    assert_eq!(windows.close("w1", &screen).method, Method::Delete);
    let screens = computer.screens();
    assert_eq!(
        screens.connect(&ComputerScreenId::new(ComputerScreenId::SCREEN_0)).path,
        "/v1/sandboxes/sb%201/computer/screens/screen%2D0/connect"
    );
    assert_eq!(body(&screens.create(&ComputerCreateScreenRequest { width: 800, height: 0 })), r#"{"width":800}"#);
    assert_eq!(
        body(&computer.set_clipboard("copied", &ComputerScreenOptions::default())),
        r#"{"text":"copied"}"#
    );
}
