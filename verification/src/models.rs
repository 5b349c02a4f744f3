//! Request, response and option types exchanged with the API.

use vstd::prelude::*;
use crate::client::opt_view;
use crate::json::{Json, JsonValue};

verus! {

/// Buffered command result.
#[derive(Clone, Debug, Default, PartialEq)]
pub struct CommandResult {
    /// Value of the `stdout` API field.
    pub standard_output: String,
    /// Value of the `stderr` API field.
    pub standard_error: String,
    /// Value of the `exit_code` API field.
    pub exit_code: i32,
    /// Value of the `error` API field.
    pub error_message: String,
}

/// Buffered command response.
#[derive(Clone, Debug, Default, PartialEq)]
pub struct RunCommandResponse {
    /// Value of the `result` API field.
    pub result: CommandResult,
    /// IEEE-754 bit pattern of the `exec_ms` API field (milliseconds spent running).
    pub execution_milliseconds_bits: u64,
}

} // verus!

verus! {

/// A point in time: seconds and nanoseconds since the Unix epoch, in UTC.
#[derive(Clone, Copy, Debug, Default, PartialEq, Eq, Hash)]
pub struct Timestamp {
    /// Whole seconds since 1970-01-01T00:00:00Z.
    pub seconds: i64,
    /// Nanoseconds past the second.
    pub nanos: u32,
}

/// Sandbox creation result.
#[derive(Clone, Debug, Default, PartialEq)]
pub struct CreateSandboxResponse {
    pub id: String,
    pub status: crate::wire::SandboxStatus,
    pub name: Option<String>,
    /// Value of the `ip` API field.
    pub ip_address: String,
    pub shape: String,
    pub rootfs: Option<String>,
    pub vcpu: u32,
    /// Value of the `mem_mib` API field.
    pub memory_mib: u64,
    pub disk_mib: i64,
    /// IEEE-754 bit pattern of the `spawn_ms` API field.
    pub spawn_milliseconds_bits: u64,
    /// Value of the `egress` API field.
    pub egress_rules: Vec<String>,
    pub bandwidth_quota_bytes: i64,
    pub ingress_url_template: String,
}

/// Full sandbox projection.
#[derive(Clone, Debug, Default, PartialEq)]
pub struct Sandbox {
    pub id: String,
    pub status: crate::wire::SandboxStatus,
    /// Value of the `ip` API field.
    pub ip_address: Option<String>,
    pub vcpu: u32,
    /// Value of the `mem_mib` API field.
    pub memory_mib: u64,
    pub disk_mib: i64,
    pub created_at: Option<Timestamp>,
    pub ingress_enabled: bool,
    pub ingress_url_template: String,
    pub name: Option<String>,
    pub running_at: Option<Timestamp>,
    pub destroyed_at: Option<Timestamp>,
    /// IEEE-754 bit pattern of the `spawn_ms` API field.
    pub spawn_milliseconds_bits: u64,
    pub shape: String,
    pub rootfs: Option<String>,
    pub region: String,
    /// Value of the `egress` API field.
    pub egress_rules: Vec<String>,
    /// Value of the `envs` API field.
    pub environment_variables: Vec<String>,
    /// Value of the `ssh_pubkeys` API field.
    pub ssh_public_keys: Vec<String>,
    pub created_by: String,
    pub bandwidth_ingress_bytes: i64,
    pub paused_at: Option<Timestamp>,
    pub last_resumed_at: Option<Timestamp>,
    pub forked_from: Option<String>,
    pub auto_pause_after_seconds: Option<u64>,
}

/// Control-plane readiness response.
#[derive(Clone, Debug, Default, PartialEq, Eq)]
pub struct Readiness {
    pub ready: bool,
    pub reason: String,
    pub scheduler_last_ok_ms_ago: i64,
}

} // verus!

verus! {

/// Sandbox resize result.
#[derive(Clone, Debug, Default, PartialEq, Eq)]
pub struct ResizeSandboxResponse {
    /// Value of the `id` API field.
    pub id: String,
    /// Value of the `disk_mib` API field.
    pub disk_mib: i64,
}

/// Whether two sandbox projections hold the same values.
pub open spec fn same_sandbox(a: Sandbox, b: Sandbox) -> bool {
    &&& a.id@ == b.id@
    &&& a.status.0@ == b.status.0@
    &&& opt_view(a.ip_address) == opt_view(b.ip_address)
    &&& a.vcpu == b.vcpu
    &&& a.memory_mib == b.memory_mib
    &&& a.disk_mib == b.disk_mib
    &&& a.created_at == b.created_at
    &&& a.ingress_enabled == b.ingress_enabled
    &&& a.ingress_url_template@ == b.ingress_url_template@
    &&& opt_view(a.name) == opt_view(b.name)
    &&& a.running_at == b.running_at
    &&& a.destroyed_at == b.destroyed_at
    &&& a.spawn_milliseconds_bits == b.spawn_milliseconds_bits
    &&& a.shape@ == b.shape@
    &&& opt_view(a.rootfs) == opt_view(b.rootfs)
    &&& a.region@ == b.region@
    &&& a.egress_rules@ == b.egress_rules@
    &&& a.environment_variables@ == b.environment_variables@
    &&& a.ssh_public_keys@ == b.ssh_public_keys@
    &&& a.created_by@ == b.created_by@
    &&& a.bandwidth_ingress_bytes == b.bandwidth_ingress_bytes
    &&& a.paused_at == b.paused_at
    &&& a.last_resumed_at == b.last_resumed_at
    &&& opt_view(a.forked_from) == opt_view(b.forked_from)
    &&& a.auto_pause_after_seconds == b.auto_pause_after_seconds
}

/// The projection of a sandbox that was just created: the creation result's values,
/// whether ingress was requested, and empty values elsewhere.
pub open spec fn created_projection(r: Sandbox, created: CreateSandboxResponse, ingress_enabled: bool) -> bool {
    &&& r.id == created.id
    &&& r.status == created.status
    &&& r.name == created.name
    &&& r.ip_address == Some(created.ip_address)
    &&& r.shape == created.shape
    &&& r.rootfs == created.rootfs
    &&& r.vcpu == created.vcpu
    &&& r.memory_mib == created.memory_mib
    &&& r.disk_mib == created.disk_mib
    &&& r.spawn_milliseconds_bits == created.spawn_milliseconds_bits
    &&& r.ingress_enabled == ingress_enabled
    &&& r.ingress_url_template == created.ingress_url_template
    &&& r.egress_rules == created.egress_rules
    &&& r.created_at is None && r.running_at is None && r.destroyed_at is None
    &&& r.paused_at is None && r.last_resumed_at is None
    &&& r.forked_from is None && r.auto_pause_after_seconds is None
    &&& r.region@.len() == 0 && r.created_by@.len() == 0
    &&& r.environment_variables@.len() == 0 && r.ssh_public_keys@.len() == 0
    &&& r.bandwidth_ingress_bytes == 0
}

/// A copy of an optional string.
pub fn copy_text(s: &Option<String>) -> (r: Option<String>)
    ensures
        opt_view(r) == opt_view(*s),
{
    match s {
        Some(v) => Some(v.clone()),
        None => None,
    }
}

/// A copy of a list of strings.
pub fn copy_strings(v: &Vec<String>) -> (r: Vec<String>)
    ensures
        r@ == v@,
{
    let mut r: Vec<String> = Vec::new();
    let mut i: usize = 0;
    while i < v.len()
        invariant
            i <= v.len(),
            r@ == v@.subrange(0, i as int),
        decreases v.len() - i,
    {
        r.push(v[i].clone());
        i += 1;
        assert(r@ =~= v@.subrange(0, i as int));
    }
    assert(v@.subrange(0, v@.len() as int) =~= v@);
    r
}

impl Sandbox {
    /// A copy of the projection.
    pub fn duplicate(&self) -> (r: Sandbox)
        ensures
            same_sandbox(r, *self),
    {
        Sandbox {
            id: self.id.clone(),
            status: crate::wire::SandboxStatus::new(self.status.as_str()),
            ip_address: copy_text(&self.ip_address),
            vcpu: self.vcpu,
            memory_mib: self.memory_mib,
            disk_mib: self.disk_mib,
            created_at: self.created_at,
            ingress_enabled: self.ingress_enabled,
            ingress_url_template: self.ingress_url_template.clone(),
            name: copy_text(&self.name),
            running_at: self.running_at,
            destroyed_at: self.destroyed_at,
            spawn_milliseconds_bits: self.spawn_milliseconds_bits,
            shape: self.shape.clone(),
            rootfs: copy_text(&self.rootfs),
            region: self.region.clone(),
            egress_rules: copy_strings(&self.egress_rules),
            environment_variables: copy_strings(&self.environment_variables),
            ssh_public_keys: copy_strings(&self.ssh_public_keys),
            created_by: self.created_by.clone(),
            bandwidth_ingress_bytes: self.bandwidth_ingress_bytes,
            paused_at: self.paused_at,
            last_resumed_at: self.last_resumed_at,
            forked_from: copy_text(&self.forked_from),
            auto_pause_after_seconds: self.auto_pause_after_seconds,
        }
    }

    /// The projection of a sandbox that was just created: the creation result's values,
    /// whether ingress was requested, and empty values elsewhere.
    pub fn from_created(created: CreateSandboxResponse, ingress_enabled: bool) -> (r: Sandbox)
        ensures
            created_projection(r, created, ingress_enabled),
    {
        Sandbox {
            id: created.id,
            status: created.status,
            ip_address: Some(created.ip_address),
            vcpu: created.vcpu,
            memory_mib: created.memory_mib,
            disk_mib: created.disk_mib,
            created_at: None,
            ingress_enabled,
            ingress_url_template: created.ingress_url_template,
            name: created.name,
            running_at: None,
            destroyed_at: None,
            spawn_milliseconds_bits: created.spawn_milliseconds_bits,
            shape: created.shape,
            rootfs: created.rootfs,
            region: String::new(),
            egress_rules: created.egress_rules,
            environment_variables: Vec::new(),
            ssh_public_keys: Vec::new(),
            created_by: String::new(),
            bandwidth_ingress_bytes: 0,
            paused_at: None,
            last_resumed_at: None,
            forked_from: None,
            auto_pause_after_seconds: None,
        }
    }
}

} // verus!

verus! {

/// One template build-log event. Members other than the six below are kept in `extra`.
#[derive(Debug, Default)]
pub struct TemplateLogEvent {
    /// Event timestamp.
    pub ts: Option<Timestamp>,
    /// Log severity.
    pub level: String,
    /// Build-log line.
    pub line: String,
    /// Build attempt number.
    pub attempt: u32,
    /// Value of the `final` API field: whether this is the last event of the build.
    pub final_: bool,
    /// Build status.
    pub status: String,
    /// Members of the event this type does not name, in order.
    pub extra: Vec<(String, JsonValue)>,
}

/// The content of a template build-log event: timestamp (seconds and nanoseconds),
/// level, line, attempt, whether it is final, status, and the other members.
pub struct TemplateLogView {
    pub ts: Option<(i64, u32)>,
    pub level: Seq<char>,
    pub line: Seq<char>,
    pub attempt: u32,
    pub final_: bool,
    pub status: Seq<char>,
    pub extra: Seq<(Seq<char>, Json)>,
}

impl TemplateLogEvent {
    /// The event's content.
    pub open spec fn content(self) -> TemplateLogView {
        TemplateLogView {
            ts: match self.ts { Some(t) => Some((t.seconds, t.nanos)), None => None },
            level: self.level@,
            line: self.line@,
            attempt: self.attempt,
            final_: self.final_,
            status: self.status@,
            extra: crate::json::view_entries(self.extra@),
        }
    }
}

} // verus!

