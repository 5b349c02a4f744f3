//! Wire string values. Unknown server values are kept as they are.

use vstd::prelude::*;

verus! {

/// Sandbox lifecycle state.
#[derive(Clone, Debug, Default, PartialEq, Eq, Hash)]
pub struct SandboxStatus(pub String);

impl SandboxStatus {
    /// Wire value `creating`.
    pub const CREATING: &'static str = "creating";

    /// Wire value `running`.
    pub const RUNNING: &'static str = "running";

    /// Wire value `pausing`.
    pub const PAUSING: &'static str = "pausing";

    /// Wire value `paused`.
    pub const PAUSED: &'static str = "paused";

    /// Wire value `resuming`.
    pub const RESUMING: &'static str = "resuming";

    /// Wire value `forking`.
    pub const FORKING: &'static str = "forking";

    /// Wire value `error`.
    pub const ERROR: &'static str = "error";

    /// Wire value `destroying`.
    pub const DESTROYING: &'static str = "destroying";

    /// Wire value `destroyed`.
    pub const DESTROYED: &'static str = "destroyed";

    /// Wire value `failed`.
    pub const FAILED: &'static str = "failed";

    /// A wire value.
    pub fn new(value: &str) -> (r: SandboxStatus)
        ensures
            r.0@ == value@,
    {
        SandboxStatus(value.to_owned())
    }

    /// The wire representation.
    pub fn as_str(&self) -> (r: &str)
        ensures
            r@ == self.0@,
    {
        self.0.as_str()
    }

    /// Whether the wire representation is empty.
    pub fn is_empty(&self) -> (b: bool)
        ensures
            b == (self.0@.len() == 0),
    {
        self.0.as_str().is_empty()
    }
}

/// Command stream event kind.
#[derive(Clone, Debug, Default, PartialEq, Eq, Hash)]
pub struct ExecStreamEventType(pub String);

impl ExecStreamEventType {
    /// Wire value `stdout`.
    pub const STDOUT: &'static str = "stdout";

    /// Wire value `stderr`.
    pub const STDERR: &'static str = "stderr";

    /// Wire value `exit`.
    pub const EXIT: &'static str = "exit";

    /// Wire value `error`.
    pub const ERROR: &'static str = "error";

    /// Wire value `heartbeat`.
    pub const HEARTBEAT: &'static str = "heartbeat";

    /// A wire value.
    pub fn new(value: &str) -> (r: ExecStreamEventType)
        ensures
            r.0@ == value@,
    {
        ExecStreamEventType(value.to_owned())
    }

    /// The wire representation.
    pub fn as_str(&self) -> (r: &str)
        ensures
            r@ == self.0@,
    {
        self.0.as_str()
    }

    /// Whether the wire representation is empty.
    pub fn is_empty(&self) -> (b: bool)
        ensures
            b == (self.0@.len() == 0),
    {
        self.0.as_str().is_empty()
    }
}

/// Signal accepted by the process API.
#[derive(Clone, Debug, Default, PartialEq, Eq, Hash)]
pub struct ManagedProcessSignal(pub String);

impl ManagedProcessSignal {
    /// Wire value `SIGHUP`.
    pub const HANGUP: &'static str = "SIGHUP";

    /// Wire value `SIGINT`.
    pub const INTERRUPT: &'static str = "SIGINT";

    /// Wire value `SIGQUIT`.
    pub const QUIT: &'static str = "SIGQUIT";

    /// Wire value `SIGKILL`.
    pub const KILL: &'static str = "SIGKILL";

    /// Wire value `SIGTERM`.
    pub const TERMINATE: &'static str = "SIGTERM";

    /// Wire value `SIGUSR1`.
    pub const USER_DEFINED_1: &'static str = "SIGUSR1";

    /// Wire value `SIGUSR2`.
    pub const USER_DEFINED_2: &'static str = "SIGUSR2";

    /// Wire value `SIGWINCH`.
    pub const WINDOW_CHANGE: &'static str = "SIGWINCH";

    /// A wire value.
    pub fn new(value: &str) -> (r: ManagedProcessSignal)
        ensures
            r.0@ == value@,
    {
        ManagedProcessSignal(value.to_owned())
    }

    /// The wire representation.
    pub fn as_str(&self) -> (r: &str)
        ensures
            r@ == self.0@,
    {
        self.0.as_str()
    }

    /// Whether the wire representation is empty.
    pub fn is_empty(&self) -> (b: bool)
        ensures
            b == (self.0@.len() == 0),
    {
        self.0.as_str().is_empty()
    }
}

/// Managed process output stream.
#[derive(Clone, Debug, Default, PartialEq, Eq, Hash)]
pub struct ManagedProcessStream(pub String);

impl ManagedProcessStream {
    /// Wire value `stdout`.
    pub const STDOUT: &'static str = "stdout";

    /// Wire value `stderr`.
    pub const STDERR: &'static str = "stderr";

    /// Wire value `pty`.
    pub const PTY: &'static str = "pty";

    /// A wire value.
    pub fn new(value: &str) -> (r: ManagedProcessStream)
        ensures
            r.0@ == value@,
    {
        ManagedProcessStream(value.to_owned())
    }

    /// The wire representation.
    pub fn as_str(&self) -> (r: &str)
        ensures
            r@ == self.0@,
    {
        self.0.as_str()
    }

    /// Whether the wire representation is empty.
    pub fn is_empty(&self) -> (b: bool)
        ensures
            b == (self.0@.len() == 0),
    {
        self.0.as_str().is_empty()
    }
}

/// Managed process connection event kind.
#[derive(Clone, Debug, Default, PartialEq, Eq, Hash)]
pub struct ManagedProcessConnectEventType(pub String);

impl ManagedProcessConnectEventType {
    /// Wire value `data`.
    pub const DATA: &'static str = "data";

    /// Wire value `exit`.
    pub const EXIT: &'static str = "exit";

    /// Wire value `heartbeat`.
    pub const HEARTBEAT: &'static str = "heartbeat";

    /// Wire value `error`.
    pub const ERROR: &'static str = "error";

    /// A wire value.
    pub fn new(value: &str) -> (r: ManagedProcessConnectEventType)
        ensures
            r.0@ == value@,
    {
        ManagedProcessConnectEventType(value.to_owned())
    }

    /// The wire representation.
    pub fn as_str(&self) -> (r: &str)
        ensures
            r@ == self.0@,
    {
        self.0.as_str()
    }

    /// Whether the wire representation is empty.
    pub fn is_empty(&self) -> (b: bool)
        ensures
            b == (self.0@.len() == 0),
    {
        self.0.as_str().is_empty()
    }
}

/// One of the eight desktop screens.
#[derive(Clone, Debug, Default, PartialEq, Eq, Hash)]
pub struct ComputerScreenId(pub String);

impl ComputerScreenId {
    /// Wire value `screen-0`.
    pub const SCREEN_0: &'static str = "screen-0";

    /// Wire value `screen-1`.
    pub const SCREEN_1: &'static str = "screen-1";

    /// Wire value `screen-2`.
    pub const SCREEN_2: &'static str = "screen-2";

    /// Wire value `screen-3`.
    pub const SCREEN_3: &'static str = "screen-3";

    /// Wire value `screen-4`.
    pub const SCREEN_4: &'static str = "screen-4";

    /// Wire value `screen-5`.
    pub const SCREEN_5: &'static str = "screen-5";

    /// Wire value `screen-6`.
    pub const SCREEN_6: &'static str = "screen-6";

    /// Wire value `screen-7`.
    pub const SCREEN_7: &'static str = "screen-7";

    /// A wire value.
    pub fn new(value: &str) -> (r: ComputerScreenId)
        ensures
            r.0@ == value@,
    {
        ComputerScreenId(value.to_owned())
    }

    /// The wire representation.
    pub fn as_str(&self) -> (r: &str)
        ensures
            r@ == self.0@,
    {
        self.0.as_str()
    }

    /// Whether the wire representation is empty.
    pub fn is_empty(&self) -> (b: bool)
        ensures
            b == (self.0@.len() == 0),
    {
        self.0.as_str().is_empty()
    }
}

/// Mouse button.
#[derive(Clone, Debug, Default, PartialEq, Eq, Hash)]
pub struct ComputerMouseButton(pub String);

impl ComputerMouseButton {
    /// Wire value `left`.
    pub const LEFT: &'static str = "left";

    /// Wire value `middle`.
    pub const MIDDLE: &'static str = "middle";

    /// Wire value `right`.
    pub const RIGHT: &'static str = "right";

    /// A wire value.
    pub fn new(value: &str) -> (r: ComputerMouseButton)
        ensures
            r.0@ == value@,
    {
        ComputerMouseButton(value.to_owned())
    }

    /// The wire representation.
    pub fn as_str(&self) -> (r: &str)
        ensures
            r@ == self.0@,
    {
        self.0.as_str()
    }

    /// Whether the wire representation is empty.
    pub fn is_empty(&self) -> (b: bool)
        ensures
            b == (self.0@.len() == 0),
    {
        self.0.as_str().is_empty()
    }
}

/// Vertical scroll direction.
#[derive(Clone, Debug, Default, PartialEq, Eq, Hash)]
pub struct ComputerScrollDirection(pub String);

impl ComputerScrollDirection {
    /// Wire value `up`.
    pub const UP: &'static str = "up";

    /// Wire value `down`.
    pub const DOWN: &'static str = "down";

    /// A wire value.
    pub fn new(value: &str) -> (r: ComputerScrollDirection)
        ensures
            r.0@ == value@,
    {
        ComputerScrollDirection(value.to_owned())
    }

    /// The wire representation.
    pub fn as_str(&self) -> (r: &str)
        ensures
            r@ == self.0@,
    {
        self.0.as_str()
    }

    /// Whether the wire representation is empty.
    pub fn is_empty(&self) -> (b: bool)
        ensures
            b == (self.0@.len() == 0),
    {
        self.0.as_str().is_empty()
    }
}

/// Optional template detail field.
#[derive(Clone, Debug, Default, PartialEq, Eq, Hash)]
pub struct TemplateInclude(pub String);

impl TemplateInclude {
    /// Wire value `dockerfile`.
    pub const DOCKERFILE: &'static str = "dockerfile";

    /// A wire value.
    pub fn new(value: &str) -> (r: TemplateInclude)
        ensures
            r.0@ == value@,
    {
        TemplateInclude(value.to_owned())
    }

    /// The wire representation.
    pub fn as_str(&self) -> (r: &str)
        ensures
            r@ == self.0@,
    {
        self.0.as_str()
    }

    /// Whether the wire representation is empty.
    pub fn is_empty(&self) -> (b: bool)
        ensures
            b == (self.0@.len() == 0),
    {
        self.0.as_str().is_empty()
    }
}

/// Registered disk backend.
#[derive(Clone, Debug, Default, PartialEq, Eq, Hash)]
pub struct DiskKind(pub String);

impl DiskKind {
    /// Wire value `s3`.
    pub const S3: &'static str = "s3";

    /// A wire value.
    pub fn new(value: &str) -> (r: DiskKind)
        ensures
            r.0@ == value@,
    {
        DiskKind(value.to_owned())
    }

    /// The wire representation.
    pub fn as_str(&self) -> (r: &str)
        ensures
            r@ == self.0@,
    {
        self.0.as_str()
    }

    /// Whether the wire representation is empty.
    pub fn is_empty(&self) -> (b: bool)
        ensures
            b == (self.0@.len() == 0),
    {
        self.0.as_str().is_empty()
    }
}

/// Process boundary used when waiting.
#[derive(Clone, Debug, Default, PartialEq, Eq, Hash)]
pub struct ManagedProcessWaitScope(pub String);

impl ManagedProcessWaitScope {
    /// Wire value `leader`.
    pub const LEADER: &'static str = "leader";

    /// Wire value `tree`.
    pub const TREE: &'static str = "tree";

    /// A wire value.
    pub fn new(value: &str) -> (r: ManagedProcessWaitScope)
        ensures
            r.0@ == value@,
    {
        ManagedProcessWaitScope(value.to_owned())
    }

    /// The wire representation.
    pub fn as_str(&self) -> (r: &str)
        ensures
            r@ == self.0@,
    {
        self.0.as_str()
    }

    /// Whether the wire representation is empty.
    pub fn is_empty(&self) -> (b: bool)
        ensures
            b == (self.0@.len() == 0),
    {
        self.0.as_str().is_empty()
    }
}

} // verus!
