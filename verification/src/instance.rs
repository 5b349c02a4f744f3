//! A handle to one sandbox: the requests its operations send, and how their replies
//! change what the handle knows of the sandbox.

use vstd::prelude::*;
use crate::call::{ApiRequest, Call, PagedRequest, PagedCall, body_view, encoded, object1, offset_pairs,
    offset_query, plain, plain_options};
use crate::client::{encode, opt_view};
use crate::duration::{Duration, max_nanos};
use crate::error::{CommandError, Error};
use crate::json::{Json, JsonValue, ObjectBuilder, str_array, str_object, strings_view, text_pairs};
use crate::models::{ResizeSandboxResponse, RunCommandResponse, Sandbox, same_sandbox};
use crate::options::{AttachDiskOptions, DetachDiskOptions, ExecOptions, PaginationOptions, WaitOptions};
use crate::requests::{DiskAttachment, ForkSandboxRequest, NetworkEntry, RunCommandRequest};
use crate::text::{chars_of, decimal, trim, trimmed, u64_to_decimal};
use crate::transport::{Method, ParsedUrl, RequestOptions, Transport, debug_quote, debug_quoted,
    headers_view, parse_url, url_parse_result};
use crate::wire::SandboxStatus;

verus! {

/// The endpoint path of a sandbox, followed by `suffix`.
pub open spec fn sandbox_path(id: Seq<char>, suffix: Seq<char>) -> Seq<char> {
    "/v1/sandboxes/"@ + encoded(id) + suffix
}

/// Stateful handle to one sandbox: the client configuration its requests use and the
/// last server projection of the sandbox.
#[derive(Debug)]
pub struct Instance {
    transport: Transport,
    data: Sandbox,
}

impl Instance {
    /// Configuration of the requests made for this sandbox.
    pub closed spec fn config(self) -> Transport {
        self.transport
    }

    /// Configuration of the requests made for this sandbox.
    pub fn transport(&self) -> (t: &Transport)
        ensures
            *t == self.config(),
    {
        &self.transport
    }

    /// The last observed projection.
    pub closed spec fn sandbox(self) -> Sandbox {
        self.data
    }

    /// A handle for a sandbox projection.
    pub fn new(transport: Transport, data: Sandbox) -> (i: Instance)
        ensures
            i.config() == transport,
            i.sandbox() == data,
    {
        Instance { transport, data }
    }

    /// The sandbox identifier.
    pub fn id(&self) -> (r: String)
        ensures
            r@ == self.sandbox().id@,
    {
        self.data.id.clone()
    }

    /// The last observed name.
    pub fn name(&self) -> (r: Option<String>)
        ensures
            opt_view(r) == opt_view(self.sandbox().name),
    {
        crate::models::copy_text(&self.data.name)
    }

    /// The last observed status.
    pub fn status(&self) -> (r: SandboxStatus)
        ensures
            r.0@ == self.sandbox().status.0@,
    {
        SandboxStatus::new(self.data.status.as_str())
    }

    /// The last observed private IP.
    pub fn ip_address(&self) -> (r: Option<String>)
        ensures
            opt_view(r) == opt_view(self.sandbox().ip_address),
    {
        crate::models::copy_text(&self.data.ip_address)
    }

    /// The last observed server projection.
    pub fn data(&self) -> (r: &Sandbox)
        ensures
            *r == self.sandbox(),
    {
        &self.data
    }

    /// Replaces the projection with a newer one from the server.
    pub fn update(&mut self, data: Sandbox)
        ensures
            final(self).sandbox() == data,
            final(self).config() == old(self).config(),
    {
        self.data = data;
    }

    /// The endpoint path of this sandbox followed by `suffix`.
    pub fn path(&self, suffix: &str) -> (r: String)
        ensures
            r@ == sandbox_path(self.sandbox().id@, suffix@),
    {
        let mut p = String::from_str("/v1/sandboxes/");
        let e = encode(self.data.id.as_str());
        p.append(e.as_str());
        p.append(suffix);
        p
    }

    /// A separate handle that authenticates with a delegated sandbox token, surrounding
    /// whitespace removed; an empty token is refused.
    pub fn with_access_token(&self, token: &str) -> (r: Result<Instance, Error>)
        ensures
            trimmed(token@).len() == 0 ==> (r matches Err(Error::InvalidArgument(m))
                && m@ == "sandbox access token must not be empty"@),
            trimmed(token@).len() != 0 ==> (r matches Ok(i) && {
                &&& i.config().api_key matches Some(k) && k@ == trimmed(token@)
                &&& i.config().base_url@ == self.config().base_url@
                &&& i.config().timeout == self.config().timeout
                &&& i.config().retry == self.config().retry
                &&& i.config().user_agent@ == self.config().user_agent@
                &&& same_sandbox(i.sandbox(), self.sandbox())
            }),
    {
        let t = trim(token);
        if t.as_str().is_empty() {
            return Err(Error::InvalidArgument(String::from_str("sandbox access token must not be empty")));
        }
        Ok(Instance { transport: self.transport.with_api_key(t), data: self.data.duplicate() })
    }

    /// A request of this sandbox without a body and with default options.
    fn simple(&self, method: Method, suffix: &str) -> (r: ApiRequest)
        ensures
            r@ == (Call { method, path: sandbox_path(self.sandbox().id@, suffix@), query: seq![], body: None,
                authenticated: true }),
            plain_options(r.options),
    {
        let r = plain(method, self.path(suffix), Vec::new(), None, true);
        assert(headers_view(r.query@) =~= seq![]);
        r
    }

    /// A request of this sandbox with a JSON body and default options.
    fn with_body(&self, method: Method, suffix: &str, body: JsonValue) -> (r: ApiRequest)
        ensures
            r@ == (Call { method, path: sandbox_path(self.sandbox().id@, suffix@), query: seq![],
                body: Some(body@), authenticated: true }),
            plain_options(r.options),
    {
        let r = plain(method, self.path(suffix), Vec::new(), Some(body), true);
        assert(headers_view(r.query@) =~= seq![]);
        r
    }

    /// Creates a delegated token: `POST /access-token`.
    pub fn create_access_token(&self) -> (r: ApiRequest)
        ensures
            r@ == (Call { method: Method::Post, path: sandbox_path(self.sandbox().id@, "/access-token"@),
                query: seq![], body: None, authenticated: true }),
            plain_options(r.options),
    {
        self.simple(Method::Post, "/access-token")
    }

    /// Reads delegated token state: `GET /access-token`.
    pub fn get_access_token(&self) -> (r: ApiRequest)
        ensures
            r@ == (Call { method: Method::Get, path: sandbox_path(self.sandbox().id@, "/access-token"@),
                query: seq![], body: None, authenticated: true }),
            plain_options(r.options),
    {
        self.simple(Method::Get, "/access-token")
    }

    /// Replaces the delegated token: `POST /access-token/rotate`.
    pub fn rotate_access_token(&self) -> (r: ApiRequest)
        ensures
            r@ == (Call { method: Method::Post, path: sandbox_path(self.sandbox().id@, "/access-token/rotate"@),
                query: seq![], body: None, authenticated: true }),
            plain_options(r.options),
    {
        self.simple(Method::Post, "/access-token/rotate")
    }

    /// Revokes the delegated token: `DELETE /access-token`.
    pub fn disable_access_token(&self) -> (r: ApiRequest)
        ensures
            r@ == (Call { method: Method::Delete, path: sandbox_path(self.sandbox().id@, "/access-token"@),
                query: seq![], body: None, authenticated: true }),
            plain_options(r.options),
    {
        self.simple(Method::Delete, "/access-token")
    }

    /// Reloads the projection: `GET` on the sandbox.
    pub fn refresh(&self) -> (r: ApiRequest)
        ensures
            r@ == (Call { method: Method::Get, path: sandbox_path(self.sandbox().id@, ""@),
                query: seq![], body: None, authenticated: true }),
            plain_options(r.options),
    {
        self.simple(Method::Get, "")
    }

    /// Snapshots and pauses the sandbox: `POST /pause`.
    pub fn pause(&self) -> (r: ApiRequest)
        ensures
            r@ == (Call { method: Method::Post, path: sandbox_path(self.sandbox().id@, "/pause"@),
                query: seq![], body: None, authenticated: true }),
            plain_options(r.options),
    {
        self.simple(Method::Post, "/pause")
    }

    /// Restores a paused sandbox: `POST /resume`.
    pub fn resume(&self) -> (r: ApiRequest)
        ensures
            r@ == (Call { method: Method::Post, path: sandbox_path(self.sandbox().id@, "/resume"@),
                query: seq![], body: None, authenticated: true }),
            plain_options(r.options),
    {
        self.simple(Method::Post, "/resume")
    }

    /// Creates an independent fork: `POST /fork` with the overrides.
    pub fn fork(&self, request: &ForkSandboxRequest) -> (r: ApiRequest)
        ensures
            r@ == (Call { method: Method::Post, path: sandbox_path(self.sandbox().id@, "/fork"@),
                query: seq![], body: Some(request.wire()), authenticated: true }),
            plain_options(r.options),
    {
        self.with_body(Method::Post, "/fork", request.to_json())
    }

    /// Starts destruction: `DELETE` on the sandbox.
    pub fn destroy(&self) -> (r: ApiRequest)
        ensures
            r@ == (Call { method: Method::Delete, path: sandbox_path(self.sandbox().id@, ""@),
                query: seq![], body: None, authenticated: true }),
            plain_options(r.options),
    {
        self.simple(Method::Delete, "")
    }

    /// Records the status a destruction request reported; the rest is unchanged.
    pub fn apply_status(&mut self, status: SandboxStatus)
        ensures
            final(self).sandbox() == (Sandbox { status: status, ..old(self).sandbox() }),
            final(self).config() == old(self).config(),
    {
        self.data.status = status;
    }

    /// Grows the overlay disk: `POST /resize` with `disk_mib`.
    pub fn resize(&self, disk_mib: i64) -> (r: ApiRequest)
        ensures
            r@ == (Call { method: Method::Post, path: sandbox_path(self.sandbox().id@, "/resize"@),
                query: seq![], body: Some(Json::Object(seq![("disk_mib"@, Json::integer(disk_mib as int))])),
                authenticated: true }),
            plain_options(r.options),
    {
        self.with_body(Method::Post, "/resize", object1("disk_mib", JsonValue::from_i64(disk_mib)))
    }

    /// Records the disk size a resize reported; the rest is unchanged.
    pub fn apply_resize(&mut self, result: &ResizeSandboxResponse)
        ensures
            final(self).sandbox() == (Sandbox { disk_mib: result.disk_mib, ..old(self).sandbox() }),
            final(self).config() == old(self).config(),
    {
        self.data.disk_mib = result.disk_mib;
    }

    /// Enables or disables public ingress: `PATCH` with `ingress_enabled`.
    pub fn set_ingress(&self, enabled: bool) -> (r: ApiRequest)
        ensures
            r@ == (Call { method: Method::Patch, path: sandbox_path(self.sandbox().id@, ""@),
                query: seq![], body: Some(Json::Object(seq![("ingress_enabled"@, Json::Bool(enabled))])),
                authenticated: true }),
            plain_options(r.options),
    {
        self.with_body(Method::Patch, "", object1("ingress_enabled", JsonValue::Bool(enabled)))
    }

    /// Sets the idle timeout, or disables auto-pause for `None`; a timeout must be whole
    /// seconds between one minute and 24 hours.
    pub fn set_auto_pause(&self, timeout: Option<Duration>) -> (r: Result<ApiRequest, Error>)
        ensures
            (timeout matches Some(t) && !auto_pause_valid(t)) ==> (r matches Err(Error::InvalidArgument(m))
                && m@ == "auto-pause timeout must be whole seconds between 1 minute and 24 hours"@),
            !(timeout matches Some(t) && !auto_pause_valid(t)) ==> (r matches Ok(q) && {
                &&& q@ == (Call { method: Method::Patch, path: sandbox_path(self.sandbox().id@, ""@),
                    query: seq![], body: Some(auto_pause_body(timeout)), authenticated: true })
                &&& plain_options(q.options)
            }),
    {
        let mut b = ObjectBuilder::new();
        match timeout {
            Some(t) => {
                if t.lt(&Duration::from_secs(60)) || Duration::from_secs(86_400).lt(&t) || t.subsec_nanos() != 0 {
                    return Err(Error::InvalidArgument(String::from_str(
                        "auto-pause timeout must be whole seconds between 1 minute and 24 hours",
                    )));
                }
                b.member("auto_pause_after_seconds", JsonValue::from_u64(t.as_secs()));
                b.member("disable_auto_pause", JsonValue::Bool(false));
            },
            None => {
                b.member("disable_auto_pause", JsonValue::Bool(true));
            },
        }
        let body = b.build();
        assert(body@ == auto_pause_body(timeout));
        Ok(self.with_body(Method::Patch, "", body))
    }

    /// Adds OpenSSH public keys: `POST /ssh-pubkeys` with `keys`.
    pub fn add_ssh_public_keys(&self, keys: &Vec<String>) -> (r: ApiRequest)
        ensures
            r@ == (Call { method: Method::Post, path: sandbox_path(self.sandbox().id@, "/ssh-pubkeys"@),
                query: seq![], body: Some(Json::Object(seq![("keys"@, str_array(strings_view(keys@)))])),
                authenticated: true }),
            plain_options(r.options),
    {
        self.with_body(Method::Post, "/ssh-pubkeys", object1("keys", JsonValue::from_strings(keys)))
    }

    /// Executes a command and buffers its output: `POST /exec` with the request, its
    /// stdin and environment replaced by those of the options when given, not streamed.
    pub fn run_command(&self, request: RunCommandRequest, options: ExecOptions) -> (r: ApiRequest)
        ensures
            r@ == (Call { method: Method::Post, path: sandbox_path(self.sandbox().id@, "/exec"@),
                query: seq![], body: Some(merged_command(request, options.standard_input, options.environment_variables, false).wire()),
                authenticated: true }),
            r.options == options.request,
    {
        let ExecOptions { request: transport_options, standard_input, environment_variables } = options;
        let command = merge_command(request, standard_input, environment_variables, false);
        let body = command.to_json();
        let r = ApiRequest {
            method: Method::Post,
            path: self.path("/exec"),
            query: Vec::new(),
            body: Some(body),
            authenticated: true,
            options: transport_options,
        };
        assert(headers_view(r.query@) =~= seq![]);
        r
    }

    /// Runs a Bash script with default execution options.
    pub fn shell(&self, script: &str) -> (r: ApiRequest)
        ensures
            r@ == (Call { method: Method::Post, path: sandbox_path(self.sandbox().id@, "/exec"@),
                query: seq![], body: Some(command_body("-lc"@, script@, None, None)),
                authenticated: true }),
            plain_options(r.options),
    {
        let options = ExecOptions { request: RequestOptions::default(), standard_input: None, environment_variables: None };
        self.shell_with(script, options)
    }

    /// Runs a Bash script as `bash -lc script` with execution options; see
    /// [`shell_outcome`] for how the reply is judged.
    pub fn shell_with(&self, script: &str, options: ExecOptions) -> (r: ApiRequest)
        ensures
            r@ == (Call { method: Method::Post, path: sandbox_path(self.sandbox().id@, "/exec"@),
                query: seq![], body: Some(command_body("-lc"@, script@, opt_view(options.standard_input),
                    options.environment_variables)),
                authenticated: true }),
            r.options == options.request,
    {
        let request = bash_command("-lc", script);
        let ghost planned = request;
        let ghost stdin = options.standard_input;
        let ghost env = options.environment_variables;
        let r = self.run_command(request, options);
        proof {
            lemma_bash_body(planned, "-lc"@, script@, stdin, env);
        }
        r
    }

    /// Starts a streaming command: `POST /exec?stream=true` with the request, its stdin and
    /// environment replaced by those of the options when given, streamed; never retried.
    pub fn stream_command(&self, request: RunCommandRequest, options: ExecOptions) -> (r: ApiRequest)
        ensures
            r@ == (Call { method: Method::Post, path: sandbox_path(self.sandbox().id@, "/exec"@),
                query: seq![("stream"@, "true"@)], body: Some(merged_command(request, options.standard_input, options.environment_variables, true).wire()),
                authenticated: true }),
            headers_view(r.options.headers@) == headers_view(options.request.headers@),
            r.options.timeout == options.request.timeout,
            r.options.retry == options.request.retry,
            r.options.disable_retry,
    {
        let ExecOptions { request: transport_options, standard_input, environment_variables } = options;
        let command = merge_command(request, standard_input, environment_variables, true);
        let body = command.to_json();
        let mut query: Vec<(String, String)> = Vec::new();
        query.push((String::from_str("stream"), String::from_str("true")));
        let r = ApiRequest {
            method: Method::Post,
            path: self.path("/exec"),
            query,
            body: Some(body),
            authenticated: true,
            options: transport_options.without_retry(),
        };
        assert(headers_view(r.query@) =~= seq![("stream"@, "true"@)]);
        r
    }

    /// The public ingress URL of a port: the ingress template with every `<port>`
    /// replaced by the port number, parsed as a URL.
    pub fn preview_url(&self, port: u16) -> (r: Result<ParsedUrl, Error>)
        ensures
            port == 0 ==> (r matches Err(Error::InvalidArgument(m)) && m@ == "port must be between 1 and 65535"@),
            port != 0 && !ingress_ready(self.sandbox()) ==> (r matches Err(Error::InvalidArgument(m))
                && m@ == "sandbox ingress is not enabled"@),
            port != 0 && ingress_ready(self.sandbox()) ==> match url_parse_result(
                replaced(self.sandbox().ingress_url_template@, "<port>"@, decimal(port as nat)),
            ) {
                Ok(u) => r matches Ok(p) && p@ == u,
                Err(e) => r matches Err(Error::Protocol(m)) && m@ == "invalid ingress URL: "@ + e,
            },
    {
        if port == 0 {
            return Err(Error::InvalidArgument(String::from_str("port must be between 1 and 65535")));
        }
        if !self.data.ingress_enabled || self.data.ingress_url_template.as_str().is_empty() {
            return Err(Error::InvalidArgument(String::from_str("sandbox ingress is not enabled")));
        }
        let port_text = u64_to_decimal(port as u64);
        proof {
            reveal_strlit("<port>");
        }
        let text = replace_all(self.data.ingress_url_template.as_str(), "<port>", port_text.as_str());
        match parse_url(text.as_str()) {
            Ok(u) => Ok(u),
            Err(e) => {
                let mut m = String::from_str("invalid ingress URL: ");
                m.append(e.as_str());
                Err(Error::Protocol(m))
            },
        }
    }

    /// Plans a wait for a TCP port: a command in the sandbox that retries connecting to
    /// `host` (default `127.0.0.1`) until the port answers or the time is up. A zero
    /// timeout means 30 seconds.
    pub fn wait_for_port(&self, host: Option<&str>, port: u16, timeout: Duration) -> (r: Result<PortProbe, Error>)
        requires
            port == 0 || !host_valid(probe_host(host)) || probe_timeout(timeout) + 5_000_000_000 <= max_nanos(),
        ensures
            port == 0 ==> (r matches Err(Error::InvalidArgument(m)) && m@ == "port must be between 1 and 65535"@),
            port != 0 && !host_valid(probe_host(host)) ==> (r matches Err(Error::InvalidArgument(m))
                && m@ == "invalid host "@ + debug_quoted(probe_host(host))),
            port != 0 && host_valid(probe_host(host)) ==> (r matches Ok(p) && {
                &&& p.timeout@ == probe_timeout(timeout)
                &&& p.request@ == (Call { method: Method::Post, path: sandbox_path(self.sandbox().id@, "/exec"@),
                    query: seq![], body: Some(command_body("-c"@, probe_script(probe_seconds(probe_timeout(timeout)),
                        probe_host(host), port), None, None)), authenticated: true })
                &&& p.request.options.headers@.len() == 0
                &&& p.request.options.timeout matches Some(d) && d@ == probe_timeout(timeout) + 5_000_000_000
                &&& p.request.options.retry is None
                &&& !p.request.options.disable_retry
            }),
    {
        if port == 0 {
            return Err(Error::InvalidArgument(String::from_str("port must be between 1 and 65535")));
        }
        let host: &str = match host {
            Some(h) => h,
            None => "127.0.0.1",
        };
        if !valid_host(host) {
            let mut m = String::from_str("invalid host ");
            let q = debug_quote(host);
            m.append(q.as_str());
            return Err(Error::InvalidArgument(m));
        }
        let timeout = if timeout.is_zero() { Duration::from_secs(30) } else { timeout };
        let whole = timeout.as_secs();
        let seconds: u64 = if whole < 1 { 1 } else { whole };
        let mut script = String::from_str("timeout ");
        let s = u64_to_decimal(seconds);
        script.append(s.as_str());
        script.append(" bash -c 'until (echo > /dev/tcp/");
        script.append(host);
        script.append("/");
        let p = u64_to_decimal(port as u64);
        script.append(p.as_str());
        script.append(") 2>/dev/null; do sleep 0.25; done'");
        let budget = match timeout.checked_add(Duration::from_secs(5)) {
            Some(d) => d,
            None => Duration::max_value(),
        };
        let mut transport_options = RequestOptions::default();
        transport_options.timeout = Some(budget);
        let options = ExecOptions { request: transport_options, standard_input: None, environment_variables: None };
        let request = bash_command("-c", script.as_str());
        let ghost planned = request;
        let r = self.run_command(request, options);
        proof {
            lemma_bash_body(planned, "-c"@, script@, None, None);
        }
        Ok(PortProbe { request: r, timeout })
    }

    /// Plans a wait until the sandbox is running; a destroyed, destroying, failed or
    /// erroneous sandbox ends the wait.
    pub fn wait_until_running(&self, options: WaitOptions) -> (w: Waiter)
        ensures
            w.target == WaitTarget::Running,
            w.timeout@ == wait_budget(options.timeout),
            w.request == options.request,
    {
        Waiter::new(WaitTarget::Running, options)
    }

    /// Plans a wait until the sandbox is paused; a destroyed, destroying, failed or
    /// erroneous sandbox ends the wait.
    pub fn wait_until_paused(&self, options: WaitOptions) -> (w: Waiter)
        ensures
            w.target == WaitTarget::Paused,
            w.timeout@ == wait_budget(options.timeout),
            w.request == options.request,
    {
        Waiter::new(WaitTarget::Paused, options)
    }

    /// Plans a wait until the sandbox is destroyed; a failed or erroneous sandbox ends
    /// the wait.
    pub fn wait_until_destroyed(&self, options: WaitOptions) -> (w: Waiter)
        ensures
            w.target == WaitTarget::Destroyed,
            w.timeout@ == wait_budget(options.timeout),
            w.request == options.request,
    {
        Waiter::new(WaitTarget::Destroyed, options)
    }

    /// Reads the egress allowlist: `GET /egress`.
    pub fn egress(&self) -> (r: ApiRequest)
        ensures
            r@ == (Call { method: Method::Get, path: sandbox_path(self.sandbox().id@, "/egress"@),
                query: seq![], body: None, authenticated: true }),
            plain_options(r.options),
    {
        self.simple(Method::Get, "/egress")
    }

    /// Replaces the egress allowlist: `PUT /egress` with `egress`; an empty list allows
    /// all egress.
    pub fn set_egress(&self, rules: &Vec<String>) -> (r: ApiRequest)
        ensures
            r@ == (Call { method: Method::Put, path: sandbox_path(self.sandbox().id@, "/egress"@),
                query: seq![], body: Some(Json::Object(seq![("egress"@, str_array(strings_view(rules@)))])),
                authenticated: true }),
            plain_options(r.options),
    {
        self.with_body(Method::Put, "/egress", object1("egress", JsonValue::from_strings(rules)))
    }

    /// Reads bandwidth quota and usage: `GET /bandwidth`.
    pub fn bandwidth(&self) -> (r: ApiRequest)
        ensures
            r@ == (Call { method: Method::Get, path: sandbox_path(self.sandbox().id@, "/bandwidth"@),
                query: seq![], body: None, authenticated: true }),
            plain_options(r.options),
    {
        self.simple(Method::Get, "/bandwidth")
    }

    /// Adds bytes to the bandwidth quota: `POST /bandwidth/recharge` with `add_bytes`.
    pub fn recharge_bandwidth(&self, bytes: i64) -> (r: ApiRequest)
        ensures
            r@ == (Call { method: Method::Post, path: sandbox_path(self.sandbox().id@, "/bandwidth/recharge"@),
                query: seq![], body: Some(Json::Object(seq![("add_bytes"@, Json::integer(bytes as int))])),
                authenticated: true }),
            plain_options(r.options),
    {
        self.with_body(Method::Post, "/bandwidth/recharge", object1("add_bytes", JsonValue::from_i64(bytes)))
    }

    /// Connects the sandbox to an overlay network: `POST /networks` with `id`.
    pub fn attach_network(&self, id: &str) -> (r: ApiRequest)
        ensures
            r@ == (Call { method: Method::Post, path: sandbox_path(self.sandbox().id@, "/networks"@),
                query: seq![], body: Some(Json::Object(seq![("id"@, Json::Str(id@))])),
                authenticated: true }),
            plain_options(r.options),
    {
        let entry = NetworkEntry { id: id.to_owned() };
        let body = entry.to_json();
        assert(body@ == Json::Object(seq![("id"@, Json::Str(id@))])) by {
            assert(Seq::<(Seq<char>, Json)>::empty().push(("id"@, Json::Str(id@))) =~= seq![("id"@, Json::Str(id@))]);
        }
        self.with_body(Method::Post, "/networks", body)
    }

    /// Disconnects the sandbox from an overlay network: `DELETE /networks/{id}`.
    pub fn detach_network(&self, id: &str) -> (r: ApiRequest)
        ensures
            r@ == (Call { method: Method::Delete, path: sandbox_path(self.sandbox().id@, "/networks/"@ + encoded(id@)),
                query: seq![], body: None, authenticated: true }),
            plain_options(r.options),
    {
        let mut suffix = String::from_str("/networks/");
        let e = encode(id);
        suffix.append(e.as_str());
        self.simple(Method::Delete, suffix.as_str())
    }

    /// Lists attached persistent disks, page by page from the offset.
    pub fn disks(&self, options: PaginationOptions) -> (r: PagedRequest)
        ensures
            r@ == (PagedCall { path: sandbox_path(self.sandbox().id@, "/disks"@), query: offset_pairs(options.offset),
                limit: options.limit, legacy_key: Some("disks"@), authenticated: true }),
            plain_options(r.options),
    {
        PagedRequest {
            path: self.path("/disks"),
            query: offset_query(options.offset),
            limit: options.limit,
            legacy_key: Some(String::from_str("disks")),
            authenticated: true,
            options: RequestOptions::default(),
        }
    }

    /// Attaches a registered disk: `POST /disks` with the attachment; see
    /// [`Instance::attach_disk_outcome`] for the reply.
    pub fn attach_disk(&self, options: AttachDiskOptions) -> (r: ApiRequest)
        ensures
            r@ == (Call { method: Method::Post, path: sandbox_path(self.sandbox().id@, "/disks"@),
                query: seq![], body: Some((DiskAttachment { disk_id: options.disk_id, mount_path: options.mount_path,
                    sub_path: options.sub_path }).wire()), authenticated: true }),
            plain_options(r.options),
    {
        let attachment = DiskAttachment {
            disk_id: options.disk_id,
            mount_path: options.mount_path,
            sub_path: options.sub_path,
        };
        self.with_body(Method::Post, "/disks", attachment.to_json())
    }

    /// Judges the reply to an attachment: the server must acknowledge this sandbox.
    pub fn attach_disk_outcome(&self, acknowledged: &str) -> (r: Result<(), Error>)
        ensures
            acknowledged@ == self.sandbox().id@ ==> r is Ok,
            acknowledged@ != self.sandbox().id@ ==> (r matches Err(Error::Protocol(m))
                && m@ == "server acknowledged sandbox "@ + debug_quoted(acknowledged@)),
    {
        if crate::text::str_eq(acknowledged, self.data.id.as_str()) {
            Ok(())
        } else {
            let mut m = String::from_str("server acknowledged sandbox ");
            let q = debug_quote(acknowledged);
            m.append(q.as_str());
            Err(Error::Protocol(m))
        }
    }

    /// Detaches one persistent disk mount: `DELETE /disks/{disk_id}?mount_path=...`.
    pub fn detach_disk(&self, options: DetachDiskOptions) -> (r: ApiRequest)
        ensures
            r@ == (Call { method: Method::Delete,
                path: sandbox_path(self.sandbox().id@, "/disks/"@ + encoded(options.disk_id@)),
                query: seq![("mount_path"@, options.mount_path@)], body: None, authenticated: true }),
            plain_options(r.options),
    {
        let mut suffix = String::from_str("/disks/");
        let e = encode(options.disk_id.as_str());
        suffix.append(e.as_str());
        let mut query: Vec<(String, String)> = Vec::new();
        let ghost mount = options.mount_path@;
        query.push((String::from_str("mount_path"), options.mount_path));
        let r = plain(Method::Delete, self.path(suffix.as_str()), query, None, true);
        assert(headers_view(r.query@) =~= seq![("mount_path"@, mount)]);
        r
    }
}

// ---------------------------------------------------------------------------
// Commands.

/// A command request with stdin and environment replaced by those of the options when
/// given, and the stream flag set.
pub open spec fn merged_command(request: RunCommandRequest, stdin: Option<String>,
    env: Option<Vec<(String, String)>>, stream: bool) -> RunCommandRequest {
    RunCommandRequest {
        command: request.command,
        arguments: request.arguments,
        standard_input: match stdin { Some(s) => Some(s), None => request.standard_input },
        environment_variables: match env { Some(e) => e, None => request.environment_variables },
        stream,
    }
}

fn merge_command(
    request: RunCommandRequest,
    standard_input: Option<String>,
    environment_variables: Option<Vec<(String, String)>>,
    stream: bool,
) -> (r: RunCommandRequest)
    ensures
        r == merged_command(request, standard_input, environment_variables, stream),
{
    let mut command = request;
    match standard_input {
        Some(s) => { command.standard_input = Some(s); },
        None => {},
    }
    match environment_variables {
        Some(e) => { command.environment_variables = e; },
        None => {},
    }
    command.stream = stream;
    command
}

/// The body of `bash flag script`, with optional stdin and environment.
pub open spec fn command_body(flag: Seq<char>, script: Seq<char>, stdin: Option<Seq<char>>,
    env: Option<Vec<(String, String)>>) -> Json {
    let m = Seq::<(Seq<char>, Json)>::empty();
    let m = m.push(("cmd"@, Json::Str("bash"@)));
    let m = m.push(("args"@, str_array(seq![flag, script])));
    let m = match stdin { Some(s) => m.push(("stdin"@, Json::Str(s))), None => m };
    let m = match env {
        Some(e) => if e@.len() == 0 { m } else { m.push(("env"@, str_object(text_pairs(e@)))) },
        None => m,
    };
    Json::Object(m)
}

fn bash_command(flag: &str, script: &str) -> (r: RunCommandRequest)
    ensures
        r.command@ == "bash"@,
        strings_view(r.arguments@) == seq![flag@, script@],
        r.standard_input is None,
        r.environment_variables@.len() == 0,
        !r.stream,
{
    let mut arguments: Vec<String> = Vec::new();
    arguments.push(flag.to_owned());
    arguments.push(script.to_owned());
    assert(strings_view(arguments@) =~= seq![flag@, script@]);
    RunCommandRequest {
        command: String::from_str("bash"),
        arguments,
        standard_input: None,
        environment_variables: Vec::new(),
        stream: false,
    }
}

proof fn lemma_bash_body(request: RunCommandRequest, flag: Seq<char>, script: Seq<char>,
    stdin: Option<String>, env: Option<Vec<(String, String)>>)
    requires
        request.command@ == "bash"@,
        strings_view(request.arguments@) == seq![flag, script],
        request.standard_input is None,
        request.environment_variables@.len() == 0,
    ensures
        merged_command(request, stdin, env, false).wire() == command_body(flag, script, opt_view(stdin), env),
{
    let merged = merged_command(request, stdin, env, false);
    assert(merged.arguments@.len() == 2) by {
        assert(strings_view(request.arguments@).len() == request.arguments@.len());
    }
}

/// Judges a shell reply: success needs exit code 0 and no agent error; otherwise the
/// complete reply is returned as a command error.
pub fn shell_outcome(response: RunCommandResponse) -> (r: Result<RunCommandResponse, Error>)
    ensures
        (response.result.exit_code == 0 && response.result.error_message@.len() == 0) ==> (r matches Ok(x)
            && x == response),
        !(response.result.exit_code == 0 && response.result.error_message@.len() == 0) ==> (r matches Err(
            Error::Command(c),
        ) && c.response == response),
{
    if response.result.exit_code == 0 && response.result.error_message.as_str().is_empty() {
        Ok(response)
    } else {
        Err(Error::Command(CommandError { response }))
    }
}

// ---------------------------------------------------------------------------
// Ingress.

/// Whether the projection has public ingress with a URL template.
pub open spec fn ingress_ready(s: Sandbox) -> bool {
    s.ingress_enabled && s.ingress_url_template@.len() != 0
}

/// `s` with every occurrence of a non-empty `pattern` replaced by `with`, scanning from
/// the left without overlaps, as `str::replace` does.
pub open spec fn replaced(s: Seq<char>, pattern: Seq<char>, with: Seq<char>) -> Seq<char>
    decreases s.len(),
{
    if pattern.len() == 0 || s.len() < pattern.len() {
        s
    } else if s.subrange(0, pattern.len() as int) == pattern {
        with + replaced(s.subrange(pattern.len() as int, s.len() as int), pattern, with)
    } else {
        seq![s[0]] + replaced(s.drop_first(), pattern, with)
    }
}

fn occurs_at(cs: &Vec<char>, i: usize, pattern: &Vec<char>) -> (b: bool)
    requires
        i <= cs.len(),
    ensures
        b == (i + pattern.len() <= cs.len() && cs@.subrange(i as int, i + pattern.len()) == pattern@),
{
    if pattern.len() > cs.len() - i {
        return false;
    }
    let mut j: usize = 0;
    while j < pattern.len()
        invariant
            i + pattern.len() <= cs.len(),
            j <= pattern.len(),
            forall|k: int| 0 <= k < j ==> cs@[i + k] == pattern@[k],
        decreases pattern.len() - j,
    {
        if cs[i + j] != pattern[j] {
            assert(cs@.subrange(i as int, i + pattern.len())[j as int] != pattern@[j as int]);
            return false;
        }
        j += 1;
    }
    assert(cs@.subrange(i as int, i + pattern.len()) =~= pattern@);
    true
}

/// `str::replace` with a non-empty pattern.
pub fn replace_all(s: &str, pattern: &str, with: &str) -> (r: String)
    requires
        pattern@.len() > 0,
    ensures
        r@ == replaced(s@, pattern@, with@),
{
    let cs = chars_of(s);
    let ps = chars_of(pattern);
    let n = cs.len();
    let mut out = String::new();
    let mut i: usize = 0;
    assert(cs@.subrange(0, n as int) =~= cs@);
    while i < n
        invariant
            n == cs.len(),
            cs@ == s@,
            ps@ == pattern@,
            ps.len() > 0,
            i <= n,
            out@ + replaced(cs@.subrange(i as int, n as int), ps@, with@) == replaced(s@, pattern@, with@),
        decreases n - i,
    {
        let ghost rest = cs@.subrange(i as int, n as int);
        if occurs_at(&cs, i, &ps) {
            assert(rest.subrange(0, ps@.len() as int) =~= cs@.subrange(i as int, i + ps.len()));
            assert(rest.subrange(ps@.len() as int, rest.len() as int) =~= cs@.subrange(i + ps.len(), n as int));
            let ghost before = out@;
            out.append(with);
            assert(out@ + replaced(cs@.subrange(i + ps.len(), n as int), ps@, with@)
                =~= before + replaced(rest, ps@, with@));
            i = i + ps.len();
        } else {
            let ghost before = out@;
            crate::text::push_char(&mut out, cs[i]);
            assert(rest.drop_first() =~= cs@.subrange(i + 1, n as int));
            proof {
                if rest.len() >= ps@.len() {
                    assert(rest.subrange(0, ps@.len() as int) =~= cs@.subrange(i as int, i + ps.len()));
                } else {
                    assert(replaced(rest.drop_first(), ps@, with@) == rest.drop_first());
                    assert(rest =~= seq![rest[0]] + rest.drop_first());
                }
            }
            assert(out@ + replaced(cs@.subrange(i + 1, n as int), ps@, with@)
                =~= before + replaced(rest, ps@, with@));
            i = i + 1;
        }
    }
    assert(cs@.subrange(n as int, n as int) =~= Seq::<char>::empty());
    assert(out@ + Seq::<char>::empty() =~= out@);
    out
}

// ---------------------------------------------------------------------------
// Auto-pause.

/// A valid idle timeout: whole seconds from one minute to 24 hours.
pub open spec fn auto_pause_valid(t: Duration) -> bool {
    60_000_000_000 <= t@ && t@ <= 86_400_000_000_000 && t@ % 1_000_000_000 == 0
}

/// The body that sets an idle timeout, or disables auto-pause for `None`.
pub open spec fn auto_pause_body(timeout: Option<Duration>) -> Json {
    match timeout {
        Some(t) => Json::Object(Seq::empty()
            .push(("auto_pause_after_seconds"@, Json::integer((t@ / 1_000_000_000) as int)))
            .push(("disable_auto_pause"@, Json::Bool(false)))),
        None => Json::Object(Seq::empty().push(("disable_auto_pause"@, Json::Bool(true)))),
    }
}

// ---------------------------------------------------------------------------
// Port probes.

/// The host a probe connects to.
pub open spec fn probe_host(host: Option<&str>) -> Seq<char> {
    match host {
        Some(h) => h@,
        None => "127.0.0.1"@,
    }
}

/// Characters allowed in a probe host: ASCII letters and digits, `.`, `:` and `-`.
pub open spec fn host_char(c: char) -> bool {
    ('0' <= c && c <= '9') || ('a' <= c && c <= 'z') || ('A' <= c && c <= 'Z') || c == '.' || c == ':' || c == '-'
}

/// A non-empty host made of allowed characters.
pub open spec fn host_valid(h: Seq<char>) -> bool {
    h.len() > 0 && forall|k: int| 0 <= k < h.len() ==> host_char(#[trigger] h[k])
}

fn valid_host(h: &str) -> (b: bool)
    ensures
        b == host_valid(h@),
{
    let cs = chars_of(h);
    if cs.len() == 0 {
        return false;
    }
    let mut i: usize = 0;
    while i < cs.len()
        invariant
            cs@ == h@,
            i <= cs.len(),
            forall|k: int| 0 <= k < i ==> host_char(#[trigger] cs@[k]),
        decreases cs.len() - i,
    {
        let c = cs[i];
        if !(('0' <= c && c <= '9') || ('a' <= c && c <= 'z') || ('A' <= c && c <= 'Z') || c == '.' || c == ':'
            || c == '-') {
            assert(!host_char(cs@[i as int]));
            return false;
        }
        i += 1;
    }
    true
}

/// The probe's time budget in nanoseconds: 30 seconds for a zero timeout.
pub open spec fn probe_timeout(timeout: Duration) -> nat {
    if timeout@ == 0 { 30_000_000_000 } else { timeout@ }
}

/// Whole seconds of the budget, at least one.
pub open spec fn probe_seconds(budget: nat) -> nat {
    if budget / 1_000_000_000 < 1 { 1 } else { budget / 1_000_000_000 }
}

/// The shell script of a probe.
pub open spec fn probe_script(seconds: nat, host: Seq<char>, port: u16) -> Seq<char> {
    "timeout "@ + decimal(seconds) + " bash -c 'until (echo > /dev/tcp/"@ + host + "/"@ + decimal(port as nat)
        + ") 2>/dev/null; do sleep 0.25; done'"@
}

/// A planned port wait: the probe command and its budget.
#[derive(Debug)]
pub struct PortProbe {
    /// The probe command.
    pub request: ApiRequest,
    /// The probe's budget.
    pub timeout: Duration,
}

impl PortProbe {
    /// Judges the probe's exit code: 0 means the port answered; anything else is a
    /// timeout of the probe's budget.
    pub fn outcome(&self, exit_code: i32) -> (r: Result<(), Error>)
        ensures
            exit_code == 0 ==> r is Ok,
            exit_code != 0 ==> (r matches Err(Error::Timeout(d)) && d == self.timeout),
    {
        if exit_code == 0 {
            Ok(())
        } else {
            Err(Error::Timeout(self.timeout))
        }
    }
}

// ---------------------------------------------------------------------------
// Status polling.

/// The state a wait is for.
#[derive(Clone, Copy, Debug, PartialEq, Eq)]
pub enum WaitTarget {
    Running,
    Paused,
    Destroyed,
}

/// The status a wait ends on.
pub open spec fn target_status(t: WaitTarget) -> Seq<char> {
    match t {
        WaitTarget::Running => "running"@,
        WaitTarget::Paused => "paused"@,
        WaitTarget::Destroyed => "destroyed"@,
    }
}

/// Statuses that end a wait unsuccessfully: `error` and `failed`, and, unless waiting
/// for destruction, `destroying` and `destroyed`.
pub open spec fn terminal_status(t: WaitTarget, s: Seq<char>) -> bool {
    s == "error"@ || s == "failed"@ || (!(t is Destroyed) && (s == "destroying"@ || s == "destroyed"@))
}

/// The polling budget in nanoseconds: two minutes for a zero timeout.
pub open spec fn wait_budget(timeout: Duration) -> nat {
    if timeout@ == 0 { 120_000_000_000 } else { timeout@ }
}

/// What a wait does after observing a status.
#[derive(Debug)]
pub enum WaitStep {
    /// The sandbox reached the awaited state.
    Done,
    /// The wait failed.
    Failed(Error),
    /// Sleep this long, then poll again.
    Continue(Duration),
}

/// A wait for a sandbox state: poll, compare, sleep, until the budget is spent.
#[derive(Debug)]
pub struct Waiter {
    /// The awaited state.
    pub target: WaitTarget,
    /// The total budget.
    pub timeout: Duration,
    /// Transport overrides of each poll.
    pub request: RequestOptions,
}

impl Waiter {
    /// A wait with the given options; a zero timeout means two minutes.
    pub fn new(target: WaitTarget, options: WaitOptions) -> (w: Waiter)
        ensures
            w.target == target,
            w.timeout@ == wait_budget(options.timeout),
            w.request == options.request,
    {
        let timeout = if options.timeout.is_zero() { Duration::from_secs(120) } else { options.timeout };
        Waiter { target, timeout, request: options.request }
    }

    /// Checked before each poll: once `elapsed` reaches the budget the wait times out.
    pub fn expired(&self, elapsed: Duration) -> (r: Option<Error>)
        ensures
            r is Some <==> elapsed@ >= self.timeout@,
            r matches Some(e) ==> (e matches Error::Timeout(d) && d == self.timeout),
    {
        if !elapsed.lt(&self.timeout) {
            Some(Error::Timeout(self.timeout))
        } else {
            None
        }
    }

    /// The poll request: `GET` on the sandbox with the wait's transport overrides.
    pub fn poll(&self, instance: &Instance) -> (r: ApiRequest)
        ensures
            r@ == (Call { method: Method::Get, path: sandbox_path(instance.sandbox().id@, ""@),
                query: seq![], body: None, authenticated: true }),
            headers_view(r.options.headers@) == headers_view(self.request.headers@),
            r.options.timeout == self.request.timeout,
            r.options.retry == self.request.retry,
            r.options.disable_retry == self.request.disable_retry,
    {
        let options = RequestOptions {
            headers: crate::transport::copy_headers(&self.request.headers),
            timeout: self.request.timeout,
            retry: self.request.retry,
            disable_retry: self.request.disable_retry,
        };
        let r = ApiRequest {
            method: Method::Get,
            path: instance.path(""),
            query: Vec::new(),
            body: None,
            authenticated: true,
            options,
        };
        assert(headers_view(r.query@) =~= seq![]);
        r
    }

    /// The step after a poll observed `status`: done on the awaited status, failed on a
    /// terminal one, else another poll after half a second.
    pub fn observe(&self, status: &SandboxStatus) -> (step: WaitStep)
        ensures
            status.0@ == target_status(self.target) ==> step is Done,
            status.0@ != target_status(self.target) && terminal_status(self.target, status.0@) ==> (step matches WaitStep::Failed(
                Error::Protocol(m),
            ) && m@ == "sandbox entered terminal state "@ + status.0@),
            status.0@ != target_status(self.target) && !terminal_status(self.target, status.0@) ==> (
            step matches WaitStep::Continue(d) && d@ == 500_000_000),
    {
        let s = status.as_str();
        let desired = match self.target {
            WaitTarget::Running => "running",
            WaitTarget::Paused => "paused",
            WaitTarget::Destroyed => "destroyed",
        };
        if crate::text::str_eq(s, desired) {
            return WaitStep::Done;
        }
        let terminal = crate::text::str_eq(s, "error") || crate::text::str_eq(s, "failed") || (match self.target {
            WaitTarget::Destroyed => false,
            _ => crate::text::str_eq(s, "destroying") || crate::text::str_eq(s, "destroyed"),
        });
        if terminal {
            let mut m = String::from_str("sandbox entered terminal state ");
            m.append(s);
            WaitStep::Failed(Error::Protocol(m))
        } else {
            WaitStep::Continue(Duration::from_millis(500))
        }
    }
}

// ---------------------------------------------------------------------------
// Requests to the local sandbox agent.

/// A request to the agent inside the sandbox, which listens on `127.0.0.1:1029`.
#[derive(Debug)]
pub struct SelfSignal {
    /// `pause` or `delete`.
    pub action: String,
    /// The agent endpoint.
    pub url: String,
    /// Query pairs: the reason, when one is given.
    pub query: Vec<(String, String)>,
}

/// The agent endpoint of an action.
pub open spec fn agent_url(action: Seq<char>) -> Seq<char> {
    "http://127.0.0.1:1029/self/"@ + action
}

/// The query of an agent request: one `reason` pair when a reason is given.
pub open spec fn reason_pairs(reason: Option<&str>) -> Seq<(Seq<char>, Seq<char>)> {
    match reason {
        Some(r) => seq![("reason"@, r@)],
        None => seq![],
    }
}

fn self_signal(action: &str, reason: Option<&str>) -> (s: SelfSignal)
    ensures
        s.action@ == action@,
        s.url@ == agent_url(action@),
        headers_view(s.query@) == reason_pairs(reason),
{
    let mut url = String::from_str("http://127.0.0.1:1029/self/");
    url.append(action);
    let mut query: Vec<(String, String)> = Vec::new();
    match reason {
        Some(r) => {
            query.push((String::from_str("reason"), r.to_owned()));
        },
        None => {},
    }
    assert(headers_view(query@) =~= reason_pairs(reason));
    SelfSignal { action: action.to_owned(), url, query }
}

/// Asks the local agent to pause its own sandbox: `POST /self/pause`.
pub fn self_pause(reason: Option<&str>) -> (s: SelfSignal)
    ensures
        s.action@ == "pause"@,
        s.url@ == agent_url("pause"@),
        headers_view(s.query@) == reason_pairs(reason),
{
    self_signal("pause", reason)
}

/// Asks the local agent to irreversibly delete its own sandbox: `POST /self/delete`.
pub fn self_delete(reason: Option<&str>) -> (s: SelfSignal)
    ensures
        s.action@ == "delete"@,
        s.url@ == agent_url("delete"@),
        headers_view(s.query@) == reason_pairs(reason),
{
    self_signal("delete", reason)
}

/// A status as the HTTP library prints it: the code and its reason phrase.
pub open spec fn status_text(status: u16) -> Seq<char> {
    decimal(status as nat) + " "@ + match crate::error::status_reason(status) {
        Some(r) => r,
        None => "<unknown status code>"@,
    }
}

impl SelfSignal {
    /// Judges the agent's reply: only `202 Accepted` is success.
    pub fn outcome(&self, status: u16) -> (r: Result<(), Error>)
        requires
            100 <= status <= 999,
        ensures
            status == 202 ==> r is Ok,
            status != 202 ==> (r matches Err(Error::Protocol(m))
                && m@ == "self-"@ + self.action@ + " returned HTTP "@ + status_text(status)),
    {
        if status == 202 {
            return Ok(());
        }
        let mut m = String::from_str("self-");
        m.append(self.action.as_str());
        m.append(" returned HTTP ");
        let code = u64_to_decimal(status as u64);
        m.append(code.as_str());
        m.append(" ");
        match crate::error::canonical_reason(status) {
            Some(reason) => m.append(reason.as_str()),
            None => m.append("<unknown status code>"),
        }
        Err(Error::Protocol(m))
    }
}

} // verus!
