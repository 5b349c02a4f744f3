//! Request bodies and their JSON form: members in declaration order, optional members
//! left out when absent, and collection members left out when empty.

use vstd::prelude::*;
use crate::json::{Json, JsonValue, ObjectBuilder, str_array, str_object, strings_view, text_pairs,
    view_items, lemma_view_items_push};
use crate::wire::{ComputerMouseButton, ComputerScrollDirection, DiskKind};

verus! {

/// Overlay network reference.
#[derive(Clone, Debug, Default, PartialEq, Eq)]
pub struct NetworkEntry {
    /// Value of the `id` API field.
    pub id: String,
}

impl NetworkEntry {
    /// The JSON form of the value.
    pub open spec fn wire(self) -> Json {
        let m = Seq::<(Seq<char>, Json)>::empty();
        let m = m.push(("id"@, Json::Str(self.id@)));
        Json::Object(m)
    }

    /// Encodes the value as JSON.
    pub fn to_json(&self) -> (v: JsonValue)
        ensures
            v@ == self.wire(),
    {
        let mut b = ObjectBuilder::new();
        b.member("id", JsonValue::from_str(self.id.as_str()));
        b.build()
    }

    /// A list of values as a JSON array.
    pub open spec fn wire_list(v: Seq<NetworkEntry>) -> Json {
        Json::Array(v.map_values(|e: NetworkEntry| e.wire()))
    }

    /// Encodes a list of values as a JSON array.
    pub fn list_json(v: &Vec<NetworkEntry>) -> (r: JsonValue)
        ensures
            r@ == NetworkEntry::wire_list(v@),
    {
        let mut items: Vec<JsonValue> = Vec::new();
        let mut i: usize = 0;
        while i < v.len()
            invariant
                i <= v.len(),
                view_items(items@) == v@.subrange(0, i as int).map_values(|e: NetworkEntry| e.wire()),
            decreases v.len() - i,
        {
            let item = v[i].to_json();
            proof {
                lemma_view_items_push(items@, item);
            }
            items.push(item);
            i += 1;
            assert(view_items(items@) =~= v@.subrange(0, i as int).map_values(|e: NetworkEntry| e.wire()));
        }
        assert(v@.subrange(0, v@.len() as int) =~= v@);
        JsonValue::Array(items)
    }
}

/// Persistent disk attachment.
#[derive(Clone, Debug, Default, PartialEq, Eq)]
pub struct DiskAttachment {
    /// Value of the `disk_id` API field.
    pub disk_id: String,
    /// Value of the `mount_path` API field.
    pub mount_path: String,
    /// Value of the `sub_path` API field.
    pub sub_path: Option<String>,
}

impl DiskAttachment {
    /// The JSON form of the value.
    pub open spec fn wire(self) -> Json {
        let m = Seq::<(Seq<char>, Json)>::empty();
        let m = m.push(("disk_id"@, Json::Str(self.disk_id@)));
        let m = m.push(("mount_path"@, Json::Str(self.mount_path@)));
        let m = match self.sub_path { Some(v) => m.push(("sub_path"@, Json::Str(v@))), None => m };
        Json::Object(m)
    }

    /// Encodes the value as JSON.
    pub fn to_json(&self) -> (v: JsonValue)
        ensures
            v@ == self.wire(),
    {
        let mut b = ObjectBuilder::new();
        b.member("disk_id", JsonValue::from_str(self.disk_id.as_str()));
        b.member("mount_path", JsonValue::from_str(self.mount_path.as_str()));
        match &self.sub_path {
            Some(v) => b.member("sub_path", JsonValue::from_str(v.as_str())),
            None => {},
        }
        b.build()
    }

    /// A list of values as a JSON array.
    pub open spec fn wire_list(v: Seq<DiskAttachment>) -> Json {
        Json::Array(v.map_values(|e: DiskAttachment| e.wire()))
    }

    /// Encodes a list of values as a JSON array.
    pub fn list_json(v: &Vec<DiskAttachment>) -> (r: JsonValue)
        ensures
            r@ == DiskAttachment::wire_list(v@),
    {
        let mut items: Vec<JsonValue> = Vec::new();
        let mut i: usize = 0;
        while i < v.len()
            invariant
                i <= v.len(),
                view_items(items@) == v@.subrange(0, i as int).map_values(|e: DiskAttachment| e.wire()),
            decreases v.len() - i,
        {
            let item = v[i].to_json();
            proof {
                lemma_view_items_push(items@, item);
            }
            items.push(item);
            i += 1;
            assert(view_items(items@) =~= v@.subrange(0, i as int).map_values(|e: DiskAttachment| e.wire()));
        }
        assert(v@.subrange(0, v@.len() as int) =~= v@);
        JsonValue::Array(items)
    }
}

/// Sandbox creation body.
#[derive(Clone, Debug, Default, PartialEq, Eq)]
pub struct CreateSandboxRequest {
    /// Value of the `shape` API field.
    pub shape: String,
    /// Value of the `rootfs` API field.
    pub rootfs: Option<String>,
    /// Value of the `name` API field.
    pub name: Option<String>,
    /// Value of the `networks` API field.
    pub networks: Vec<NetworkEntry>,
    /// Value of the `disk_mib` API field.
    pub disk_mib: Option<i64>,
    /// Value of the `egress` API field.
    pub egress_rules: Vec<String>,
    /// Value of the `envs` API field.
    pub environment_variables: Vec<(String, String)>,
    /// Value of the `ssh_pubkeys` API field.
    pub ssh_public_keys: Vec<String>,
    /// Value of the `host_id` API field.
    pub host_id: Option<String>,
    /// Value of the `node_selector` API field.
    pub node_selector: Vec<(String, String)>,
    /// Value of the `ingress_enabled` API field.
    pub ingress_enabled: bool,
    /// Value of the `disks` API field.
    pub disks: Vec<DiskAttachment>,
    /// Value of the `region` API field.
    pub region: Option<String>,
    /// Value of the `auto_pause_after_seconds` API field.
    pub auto_pause_after_seconds: Option<u64>,
}

impl CreateSandboxRequest {
    /// The JSON form of the value.
    pub open spec fn wire(self) -> Json {
        let m = Seq::<(Seq<char>, Json)>::empty();
        let m = m.push(("shape"@, Json::Str(self.shape@)));
        let m = match self.rootfs { Some(v) => m.push(("rootfs"@, Json::Str(v@))), None => m };
        let m = match self.name { Some(v) => m.push(("name"@, Json::Str(v@))), None => m };
        let m = if self.networks@.len() == 0 { m } else { m.push(("networks"@, NetworkEntry::wire_list(self.networks@))) };
        let m = match self.disk_mib { Some(v) => m.push(("disk_mib"@, Json::integer(v as int))), None => m };
        let m = if self.egress_rules@.len() == 0 { m } else { m.push(("egress"@, str_array(strings_view(self.egress_rules@)))) };
        let m = if self.environment_variables@.len() == 0 { m } else { m.push(("envs"@, str_object(text_pairs(self.environment_variables@)))) };
        let m = if self.ssh_public_keys@.len() == 0 { m } else { m.push(("ssh_pubkeys"@, str_array(strings_view(self.ssh_public_keys@)))) };
        let m = match self.host_id { Some(v) => m.push(("host_id"@, Json::Str(v@))), None => m };
        let m = if self.node_selector@.len() == 0 { m } else { m.push(("node_selector"@, str_object(text_pairs(self.node_selector@)))) };
        let m = if self.ingress_enabled { m.push(("ingress_enabled"@, Json::Bool(true))) } else { m };
        let m = if self.disks@.len() == 0 { m } else { m.push(("disks"@, DiskAttachment::wire_list(self.disks@))) };
        let m = match self.region { Some(v) => m.push(("region"@, Json::Str(v@))), None => m };
        let m = match self.auto_pause_after_seconds { Some(v) => m.push(("auto_pause_after_seconds"@, Json::integer(v as int))), None => m };
        Json::Object(m)
    }

    /// Encodes the value as JSON.
    pub fn to_json(&self) -> (v: JsonValue)
        ensures
            v@ == self.wire(),
    {
        let mut b = ObjectBuilder::new();
        b.member("shape", JsonValue::from_str(self.shape.as_str()));
        match &self.rootfs {
            Some(v) => b.member("rootfs", JsonValue::from_str(v.as_str())),
            None => {},
        }
        match &self.name {
            Some(v) => b.member("name", JsonValue::from_str(v.as_str())),
            None => {},
        }
        if self.networks.len() != 0 {
            b.member("networks", NetworkEntry::list_json(&self.networks));
        }
        match self.disk_mib {
            Some(v) => b.member("disk_mib", JsonValue::from_i64(v)),
            None => {},
        }
        if self.egress_rules.len() != 0 {
            b.member("egress", JsonValue::from_strings(&self.egress_rules));
        }
        if self.environment_variables.len() != 0 {
            b.member("envs", JsonValue::from_string_pairs(&self.environment_variables));
        }
        if self.ssh_public_keys.len() != 0 {
            b.member("ssh_pubkeys", JsonValue::from_strings(&self.ssh_public_keys));
        }
        match &self.host_id {
            Some(v) => b.member("host_id", JsonValue::from_str(v.as_str())),
            None => {},
        }
        if self.node_selector.len() != 0 {
            b.member("node_selector", JsonValue::from_string_pairs(&self.node_selector));
        }
        if self.ingress_enabled {
            b.member("ingress_enabled", JsonValue::Bool(true));
        }
        if self.disks.len() != 0 {
            b.member("disks", DiskAttachment::list_json(&self.disks));
        }
        match &self.region {
            Some(v) => b.member("region", JsonValue::from_str(v.as_str())),
            None => {},
        }
        match self.auto_pause_after_seconds {
            Some(v) => b.member("auto_pause_after_seconds", JsonValue::from_u64(v)),
            None => {},
        }
        b.build()
    }
}

/// Optional overrides applied to a sandbox fork.
#[derive(Clone, Debug, Default, PartialEq, Eq)]
pub struct ForkSandboxRequest {
    /// Value of the `start_paused` API field.
    pub start_paused: bool,
    /// Value of the `ssh_pubkeys` API field.
    pub ssh_public_keys: Option<Vec<String>>,
    /// Value of the `egress` API field.
    pub egress_rules: Option<Vec<String>>,
    /// Value of the `ingress_enabled` API field.
    pub ingress_enabled: Option<bool>,
    /// Value of the `envs` API field.
    pub environment_variables: Option<Vec<(String, String)>>,
}

impl ForkSandboxRequest {
    /// The JSON form of the value.
    pub open spec fn wire(self) -> Json {
        let m = Seq::<(Seq<char>, Json)>::empty();
        let m = if self.start_paused { m.push(("start_paused"@, Json::Bool(true))) } else { m };
        let m = match self.ssh_public_keys { Some(v) => m.push(("ssh_pubkeys"@, str_array(strings_view(v@)))), None => m };
        let m = match self.egress_rules { Some(v) => m.push(("egress"@, str_array(strings_view(v@)))), None => m };
        let m = match self.ingress_enabled { Some(v) => m.push(("ingress_enabled"@, Json::Bool(v))), None => m };
        let m = match self.environment_variables { Some(v) => m.push(("envs"@, str_object(text_pairs(v@)))), None => m };
        Json::Object(m)
    }

    /// Encodes the value as JSON.
    pub fn to_json(&self) -> (v: JsonValue)
        ensures
            v@ == self.wire(),
    {
        let mut b = ObjectBuilder::new();
        if self.start_paused {
            b.member("start_paused", JsonValue::Bool(true));
        }
        match &self.ssh_public_keys {
            Some(v) => b.member("ssh_pubkeys", JsonValue::from_strings(v)),
            None => {},
        }
        match &self.egress_rules {
            Some(v) => b.member("egress", JsonValue::from_strings(v)),
            None => {},
        }
        match self.ingress_enabled {
            Some(v) => b.member("ingress_enabled", JsonValue::Bool(v)),
            None => {},
        }
        match &self.environment_variables {
            Some(v) => b.member("envs", JsonValue::from_string_pairs(v)),
            None => {},
        }
        b.build()
    }
}

/// Command execution request.
#[derive(Clone, Debug, Default, PartialEq, Eq)]
pub struct RunCommandRequest {
    /// Value of the `cmd` API field.
    pub command: String,
    /// Value of the `args` API field.
    pub arguments: Vec<String>,
    /// Value of the `stdin` API field.
    pub standard_input: Option<String>,
    /// Value of the `env` API field.
    pub environment_variables: Vec<(String, String)>,
    /// Value of the `stream` API field.
    pub stream: bool,
}

impl RunCommandRequest {
    /// The JSON form of the value.
    pub open spec fn wire(self) -> Json {
        let m = Seq::<(Seq<char>, Json)>::empty();
        let m = m.push(("cmd"@, Json::Str(self.command@)));
        let m = if self.arguments@.len() == 0 { m } else { m.push(("args"@, str_array(strings_view(self.arguments@)))) };
        let m = match self.standard_input { Some(v) => m.push(("stdin"@, Json::Str(v@))), None => m };
        let m = if self.environment_variables@.len() == 0 { m } else { m.push(("env"@, str_object(text_pairs(self.environment_variables@)))) };
        let m = if self.stream { m.push(("stream"@, Json::Bool(true))) } else { m };
        Json::Object(m)
    }

    /// Encodes the value as JSON.
    pub fn to_json(&self) -> (v: JsonValue)
        ensures
            v@ == self.wire(),
    {
        let mut b = ObjectBuilder::new();
        b.member("cmd", JsonValue::from_str(self.command.as_str()));
        if self.arguments.len() != 0 {
            b.member("args", JsonValue::from_strings(&self.arguments));
        }
        match &self.standard_input {
            Some(v) => b.member("stdin", JsonValue::from_str(v.as_str())),
            None => {},
        }
        if self.environment_variables.len() != 0 {
            b.member("env", JsonValue::from_string_pairs(&self.environment_variables));
        }
        if self.stream {
            b.member("stream", JsonValue::Bool(true));
        }
        b.build()
    }
}

/// PTY dimensions.
#[derive(Clone, Copy, Debug, Default, PartialEq, Eq)]
pub struct PtySize {
    /// Value of the `rows` API field.
    pub rows: u32,
    /// Value of the `cols` API field.
    pub cols: u32,
}

impl PtySize {
    /// The JSON form of the value.
    pub open spec fn wire(self) -> Json {
        let m = Seq::<(Seq<char>, Json)>::empty();
        let m = if self.rows == 0 { m } else { m.push(("rows"@, Json::integer(self.rows as int))) };
        let m = if self.cols == 0 { m } else { m.push(("cols"@, Json::integer(self.cols as int))) };
        Json::Object(m)
    }

    /// Encodes the value as JSON.
    pub fn to_json(&self) -> (v: JsonValue)
        ensures
            v@ == self.wire(),
    {
        let mut b = ObjectBuilder::new();
        if self.rows != 0 {
            b.member("rows", JsonValue::from_u64(self.rows as u64));
        }
        if self.cols != 0 {
            b.member("cols", JsonValue::from_u64(self.cols as u64));
        }
        b.build()
    }
}

/// Persistent managed-process request.
#[derive(Clone, Debug, Default, PartialEq, Eq)]
pub struct ManagedProcessCreateRequest {
    /// Value of the `cmd` API field.
    pub command: String,
    /// Value of the `args` API field.
    pub arguments: Vec<String>,
    /// Value of the `cwd` API field.
    pub working_directory: Option<String>,
    /// Value of the `env` API field.
    pub environment_variables: Vec<(String, String)>,
    /// Value of the `pty` API field.
    pub pty: Option<PtySize>,
}

impl ManagedProcessCreateRequest {
    /// The JSON form of the value.
    pub open spec fn wire(self) -> Json {
        let m = Seq::<(Seq<char>, Json)>::empty();
        let m = if self.command@.len() == 0 { m } else { m.push(("cmd"@, Json::Str(self.command@))) };
        let m = if self.arguments@.len() == 0 { m } else { m.push(("args"@, str_array(strings_view(self.arguments@)))) };
        let m = match self.working_directory { Some(v) => m.push(("cwd"@, Json::Str(v@))), None => m };
        let m = if self.environment_variables@.len() == 0 { m } else { m.push(("env"@, str_object(text_pairs(self.environment_variables@)))) };
        let m = match self.pty { Some(v) => m.push(("pty"@, v.wire())), None => m };
        Json::Object(m)
    }

    /// Encodes the value as JSON.
    pub fn to_json(&self) -> (v: JsonValue)
        ensures
            v@ == self.wire(),
    {
        let mut b = ObjectBuilder::new();
        if !self.command.as_str().is_empty() {
            b.member("cmd", JsonValue::from_str(self.command.as_str()));
        }
        if self.arguments.len() != 0 {
            b.member("args", JsonValue::from_strings(&self.arguments));
        }
        match &self.working_directory {
            Some(v) => b.member("cwd", JsonValue::from_str(v.as_str())),
            None => {},
        }
        if self.environment_variables.len() != 0 {
            b.member("env", JsonValue::from_string_pairs(&self.environment_variables));
        }
        match &self.pty {
            Some(v) => b.member("pty", v.to_json()),
            None => {},
        }
        b.build()
    }
}

/// Mouse click request.
#[derive(Clone, Debug, Default, PartialEq, Eq)]
pub struct ComputerClickRequest {
    /// Value of the `button` API field.
    pub button: Option<ComputerMouseButton>,
    /// Value of the `x` API field.
    pub x: Option<i32>,
    /// Value of the `y` API field.
    pub y: Option<i32>,
    /// Value of the `count` API field.
    pub count: Option<u32>,
}

impl ComputerClickRequest {
    /// The JSON form of the value.
    pub open spec fn wire(self) -> Json {
        let m = Seq::<(Seq<char>, Json)>::empty();
        let m = match self.button { Some(v) => m.push(("button"@, Json::Str(v.0@))), None => m };
        let m = match self.x { Some(v) => m.push(("x"@, Json::integer(v as int))), None => m };
        let m = match self.y { Some(v) => m.push(("y"@, Json::integer(v as int))), None => m };
        let m = match self.count { Some(v) => m.push(("count"@, Json::integer(v as int))), None => m };
        Json::Object(m)
    }

    /// Encodes the value as JSON.
    pub fn to_json(&self) -> (v: JsonValue)
        ensures
            v@ == self.wire(),
    {
        let mut b = ObjectBuilder::new();
        match &self.button {
            Some(v) => b.member("button", JsonValue::from_str(v.as_str())),
            None => {},
        }
        match self.x {
            Some(v) => b.member("x", JsonValue::from_i64(v as i64)),
            None => {},
        }
        match self.y {
            Some(v) => b.member("y", JsonValue::from_i64(v as i64)),
            None => {},
        }
        match self.count {
            Some(v) => b.member("count", JsonValue::from_u64(v as u64)),
            None => {},
        }
        b.build()
    }
}

/// Mouse scroll request.
#[derive(Clone, Debug, Default, PartialEq, Eq)]
pub struct ComputerScrollRequest {
    /// Value of the `direction` API field.
    pub direction: ComputerScrollDirection,
    /// Value of the `amount` API field.
    pub amount: i32,
}

impl ComputerScrollRequest {
    /// The JSON form of the value.
    pub open spec fn wire(self) -> Json {
        let m = Seq::<(Seq<char>, Json)>::empty();
        let m = if self.direction.0@.len() == 0 { m } else { m.push(("direction"@, Json::Str(self.direction.0@))) };
        let m = if self.amount == 0 { m } else { m.push(("amount"@, Json::integer(self.amount as int))) };
        Json::Object(m)
    }

    /// Encodes the value as JSON.
    pub fn to_json(&self) -> (v: JsonValue)
        ensures
            v@ == self.wire(),
    {
        let mut b = ObjectBuilder::new();
        if !self.direction.is_empty() {
            b.member("direction", JsonValue::from_str(self.direction.as_str()));
        }
        if self.amount != 0 {
            b.member("amount", JsonValue::from_i64(self.amount as i64));
        }
        b.build()
    }
}

/// Desktop coordinate.
#[derive(Clone, Copy, Debug, Default, PartialEq, Eq)]
pub struct ComputerPoint {
    /// Value of the `x` API field.
    pub x: i32,
    /// Value of the `y` API field.
    pub y: i32,
}

impl ComputerPoint {
    /// The JSON form of the value.
    pub open spec fn wire(self) -> Json {
        let m = Seq::<(Seq<char>, Json)>::empty();
        let m = m.push(("x"@, Json::integer(self.x as int)));
        let m = m.push(("y"@, Json::integer(self.y as int)));
        Json::Object(m)
    }

    /// Encodes the value as JSON.
    pub fn to_json(&self) -> (v: JsonValue)
        ensures
            v@ == self.wire(),
    {
        let mut b = ObjectBuilder::new();
        b.member("x", JsonValue::from_i64(self.x as i64));
        b.member("y", JsonValue::from_i64(self.y as i64));
        b.build()
    }
}

/// Mouse drag request.
#[derive(Clone, Debug, Default, PartialEq, Eq)]
pub struct ComputerDragRequest {
    /// Value of the `from` API field.
    pub from: ComputerPoint,
    /// Value of the `to` API field.
    pub to: ComputerPoint,
}

impl ComputerDragRequest {
    /// The JSON form of the value.
    pub open spec fn wire(self) -> Json {
        let m = Seq::<(Seq<char>, Json)>::empty();
        let m = m.push(("from"@, self.from.wire()));
        let m = m.push(("to"@, self.to.wire()));
        Json::Object(m)
    }

    /// Encodes the value as JSON.
    pub fn to_json(&self) -> (v: JsonValue)
        ensures
            v@ == self.wire(),
    {
        let mut b = ObjectBuilder::new();
        b.member("from", self.from.to_json());
        b.member("to", self.to.to_json());
        b.build()
    }
}

/// Mouse button request.
#[derive(Clone, Debug, Default, PartialEq, Eq)]
pub struct ComputerButtonRequest {
    /// Value of the `button` API field.
    pub button: ComputerMouseButton,
}

impl ComputerButtonRequest {
    /// The JSON form of the value.
    pub open spec fn wire(self) -> Json {
        let m = Seq::<(Seq<char>, Json)>::empty();
        let m = if self.button.0@.len() == 0 { m } else { m.push(("button"@, Json::Str(self.button.0@))) };
        Json::Object(m)
    }

    /// Encodes the value as JSON.
    pub fn to_json(&self) -> (v: JsonValue)
        ensures
            v@ == self.wire(),
    {
        let mut b = ObjectBuilder::new();
        if !self.button.is_empty() {
            b.member("button", JsonValue::from_str(self.button.as_str()));
        }
        b.build()
    }
}

/// Keyboard typing request.
#[derive(Clone, Debug, Default, PartialEq, Eq)]
pub struct ComputerTypeRequest {
    /// Value of the `text` API field.
    pub text: String,
    /// Value of the `delay_in_ms` API field.
    pub delay_ms: Option<u64>,
}

impl ComputerTypeRequest {
    /// The JSON form of the value.
    pub open spec fn wire(self) -> Json {
        let m = Seq::<(Seq<char>, Json)>::empty();
        let m = m.push(("text"@, Json::Str(self.text@)));
        let m = match self.delay_ms { Some(v) => m.push(("delay_in_ms"@, Json::integer(v as int))), None => m };
        Json::Object(m)
    }

    /// Encodes the value as JSON.
    pub fn to_json(&self) -> (v: JsonValue)
        ensures
            v@ == self.wire(),
    {
        let mut b = ObjectBuilder::new();
        b.member("text", JsonValue::from_str(self.text.as_str()));
        match self.delay_ms {
            Some(v) => b.member("delay_in_ms", JsonValue::from_u64(v)),
            None => {},
        }
        b.build()
    }
}

/// Desktop target request.
#[derive(Clone, Debug, Default, PartialEq, Eq)]
pub struct ComputerOpenRequest {
    /// Value of the `target` API field.
    pub target: String,
}

impl ComputerOpenRequest {
    /// The JSON form of the value.
    pub open spec fn wire(self) -> Json {
        let m = Seq::<(Seq<char>, Json)>::empty();
        let m = m.push(("target"@, Json::Str(self.target@)));
        Json::Object(m)
    }

    /// Encodes the value as JSON.
    pub fn to_json(&self) -> (v: JsonValue)
        ensures
            v@ == self.wire(),
    {
        let mut b = ObjectBuilder::new();
        b.member("target", JsonValue::from_str(self.target.as_str()));
        b.build()
    }
}

/// Desktop application launch request.
#[derive(Clone, Debug, Default, PartialEq, Eq)]
pub struct ComputerLaunchRequest {
    /// Value of the `application` API field.
    pub application: String,
    /// Value of the `uri` API field.
    pub uri: Option<String>,
}

impl ComputerLaunchRequest {
    /// The JSON form of the value.
    pub open spec fn wire(self) -> Json {
        let m = Seq::<(Seq<char>, Json)>::empty();
        let m = m.push(("application"@, Json::Str(self.application@)));
        let m = match self.uri { Some(v) => m.push(("uri"@, Json::Str(v@))), None => m };
        Json::Object(m)
    }

    /// Encodes the value as JSON.
    pub fn to_json(&self) -> (v: JsonValue)
        ensures
            v@ == self.wire(),
    {
        let mut b = ObjectBuilder::new();
        b.member("application", JsonValue::from_str(self.application.as_str()));
        match &self.uri {
            Some(v) => b.member("uri", JsonValue::from_str(v.as_str())),
            None => {},
        }
        b.build()
    }
}

/// Window move request.
#[derive(Clone, Copy, Debug, Default, PartialEq, Eq)]
pub struct ComputerWindowMoveRequest {
    /// Value of the `x` API field.
    pub x: i32,
    /// Value of the `y` API field.
    pub y: i32,
}

impl ComputerWindowMoveRequest {
    /// The JSON form of the value.
    pub open spec fn wire(self) -> Json {
        let m = Seq::<(Seq<char>, Json)>::empty();
        let m = m.push(("x"@, Json::integer(self.x as int)));
        let m = m.push(("y"@, Json::integer(self.y as int)));
        Json::Object(m)
    }

    /// Encodes the value as JSON.
    pub fn to_json(&self) -> (v: JsonValue)
        ensures
            v@ == self.wire(),
    {
        let mut b = ObjectBuilder::new();
        b.member("x", JsonValue::from_i64(self.x as i64));
        b.member("y", JsonValue::from_i64(self.y as i64));
        b.build()
    }
}

/// Window resize request.
#[derive(Clone, Copy, Debug, Default, PartialEq, Eq)]
pub struct ComputerWindowResizeRequest {
    /// Value of the `width` API field.
    pub width: u32,
    /// Value of the `height` API field.
    pub height: u32,
}

impl ComputerWindowResizeRequest {
    /// The JSON form of the value.
    pub open spec fn wire(self) -> Json {
        let m = Seq::<(Seq<char>, Json)>::empty();
        let m = m.push(("width"@, Json::integer(self.width as int)));
        let m = m.push(("height"@, Json::integer(self.height as int)));
        Json::Object(m)
    }

    /// Encodes the value as JSON.
    pub fn to_json(&self) -> (v: JsonValue)
        ensures
            v@ == self.wire(),
    {
        let mut b = ObjectBuilder::new();
        b.member("width", JsonValue::from_u64(self.width as u64));
        b.member("height", JsonValue::from_u64(self.height as u64));
        b.build()
    }
}

/// Screen create or resize request.
#[derive(Clone, Copy, Debug, Default, PartialEq, Eq)]
pub struct ComputerCreateScreenRequest {
    /// Value of the `width` API field.
    pub width: u32,
    /// Value of the `height` API field.
    pub height: u32,
}

impl ComputerCreateScreenRequest {
    /// The JSON form of the value.
    pub open spec fn wire(self) -> Json {
        let m = Seq::<(Seq<char>, Json)>::empty();
        let m = if self.width == 0 { m } else { m.push(("width"@, Json::integer(self.width as int))) };
        let m = if self.height == 0 { m } else { m.push(("height"@, Json::integer(self.height as int))) };
        Json::Object(m)
    }

    /// Encodes the value as JSON.
    pub fn to_json(&self) -> (v: JsonValue)
        ensures
            v@ == self.wire(),
    {
        let mut b = ObjectBuilder::new();
        if self.width != 0 {
            b.member("width", JsonValue::from_u64(self.width as u64));
        }
        if self.height != 0 {
            b.member("height", JsonValue::from_u64(self.height as u64));
        }
        b.build()
    }
}

/// Template creation request.
#[derive(Clone, Debug, Default, PartialEq, Eq)]
pub struct TemplateCreateRequest {
    /// Value of the `name` API field.
    pub name: String,
    /// Value of the `dockerfile` API field.
    pub dockerfile: String,
    /// Value of the `base` API field.
    pub base: Option<String>,
}

impl TemplateCreateRequest {
    /// The JSON form of the value.
    pub open spec fn wire(self) -> Json {
        let m = Seq::<(Seq<char>, Json)>::empty();
        let m = m.push(("name"@, Json::Str(self.name@)));
        let m = m.push(("dockerfile"@, Json::Str(self.dockerfile@)));
        let m = match self.base { Some(v) => m.push(("base"@, Json::Str(v@))), None => m };
        Json::Object(m)
    }

    /// Encodes the value as JSON.
    pub fn to_json(&self) -> (v: JsonValue)
        ensures
            v@ == self.wire(),
    {
        let mut b = ObjectBuilder::new();
        b.member("name", JsonValue::from_str(self.name.as_str()));
        b.member("dockerfile", JsonValue::from_str(self.dockerfile.as_str()));
        match &self.base {
            Some(v) => b.member("base", JsonValue::from_str(v.as_str())),
            None => {},
        }
        b.build()
    }
}

/// Non-secret S3 disk configuration.
#[derive(Clone, Debug, Default, PartialEq, Eq)]
pub struct DiskConfig {
    /// Value of the `bucket` API field.
    pub bucket: String,
    /// Value of the `endpoint` API field.
    pub endpoint: String,
    /// Value of the `region` API field.
    pub region: Option<String>,
    /// Value of the `use_path_style` API field.
    pub use_path_style: bool,
}

impl DiskConfig {
    /// The JSON form of the value.
    pub open spec fn wire(self) -> Json {
        let m = Seq::<(Seq<char>, Json)>::empty();
        let m = m.push(("bucket"@, Json::Str(self.bucket@)));
        let m = m.push(("endpoint"@, Json::Str(self.endpoint@)));
        let m = match self.region { Some(v) => m.push(("region"@, Json::Str(v@))), None => m };
        let m = if self.use_path_style { m.push(("use_path_style"@, Json::Bool(true))) } else { m };
        Json::Object(m)
    }

    /// Encodes the value as JSON.
    pub fn to_json(&self) -> (v: JsonValue)
        ensures
            v@ == self.wire(),
    {
        let mut b = ObjectBuilder::new();
        b.member("bucket", JsonValue::from_str(self.bucket.as_str()));
        b.member("endpoint", JsonValue::from_str(self.endpoint.as_str()));
        match &self.region {
            Some(v) => b.member("region", JsonValue::from_str(v.as_str())),
            None => {},
        }
        if self.use_path_style {
            b.member("use_path_style", JsonValue::Bool(true));
        }
        b.build()
    }
}

/// Write-only disk credentials.
#[derive(Clone, Debug, Default, PartialEq, Eq)]
pub struct DiskCredentials {
    /// Value of the `access_key` API field.
    pub access_key: String,
    /// Value of the `secret_key` API field.
    pub secret_key: String,
}

impl DiskCredentials {
    /// The JSON form of the value.
    pub open spec fn wire(self) -> Json {
        let m = Seq::<(Seq<char>, Json)>::empty();
        let m = m.push(("access_key"@, Json::Str(self.access_key@)));
        let m = m.push(("secret_key"@, Json::Str(self.secret_key@)));
        Json::Object(m)
    }

    /// Encodes the value as JSON.
    pub fn to_json(&self) -> (v: JsonValue)
        ensures
            v@ == self.wire(),
    {
        let mut b = ObjectBuilder::new();
        b.member("access_key", JsonValue::from_str(self.access_key.as_str()));
        b.member("secret_key", JsonValue::from_str(self.secret_key.as_str()));
        b.build()
    }
}

/// Disk registration request.
#[derive(Clone, Debug, Default, PartialEq, Eq)]
pub struct DiskCreateRequest {
    /// Value of the `name` API field.
    pub name: String,
    /// Value of the `kind` API field.
    pub kind: DiskKind,
    /// Value of the `config` API field.
    pub config: DiskConfig,
    /// Value of the `credentials` API field.
    pub credentials: DiskCredentials,
}

impl DiskCreateRequest {
    /// The JSON form of the value.
    pub open spec fn wire(self) -> Json {
        let m = Seq::<(Seq<char>, Json)>::empty();
        let m = m.push(("name"@, Json::Str(self.name@)));
        let m = m.push(("kind"@, Json::Str(self.kind.0@)));
        let m = m.push(("config"@, self.config.wire()));
        let m = m.push(("credentials"@, self.credentials.wire()));
        Json::Object(m)
    }

    /// Encodes the value as JSON.
    pub fn to_json(&self) -> (v: JsonValue)
        ensures
            v@ == self.wire(),
    {
        let mut b = ObjectBuilder::new();
        b.member("name", JsonValue::from_str(self.name.as_str()));
        b.member("kind", JsonValue::from_str(self.kind.as_str()));
        b.member("config", self.config.to_json());
        b.member("credentials", self.credentials.to_json());
        b.build()
    }
}

/// Overlay network creation request.
#[derive(Clone, Debug, Default, PartialEq, Eq)]
pub struct NetworkCreateRequest {
    /// Value of the `name` API field.
    pub name: String,
}

impl NetworkCreateRequest {
    /// The JSON form of the value.
    pub open spec fn wire(self) -> Json {
        let m = Seq::<(Seq<char>, Json)>::empty();
        let m = m.push(("name"@, Json::Str(self.name@)));
        Json::Object(m)
    }

    /// Encodes the value as JSON.
    pub fn to_json(&self) -> (v: JsonValue)
        ensures
            v@ == self.wire(),
    {
        let mut b = ObjectBuilder::new();
        b.member("name", JsonValue::from_str(self.name.as_str()));
        b.build()
    }
}

/// Desktop clipboard contents.
#[derive(Clone, Debug, Default, PartialEq, Eq)]
pub struct ComputerClipboard {
    /// Value of the `text` API field.
    pub text: String,
}

impl ComputerClipboard {
    /// The JSON form of the value.
    pub open spec fn wire(self) -> Json {
        let m = Seq::<(Seq<char>, Json)>::empty();
        let m = m.push(("text"@, Json::Str(self.text@)));
        Json::Object(m)
    }

    /// Encodes the value as JSON.
    pub fn to_json(&self) -> (v: JsonValue)
        ensures
            v@ == self.wire(),
    {
        let mut b = ObjectBuilder::new();
        b.member("text", JsonValue::from_str(self.text.as_str()));
        b.build()
    }
}

} // verus!
