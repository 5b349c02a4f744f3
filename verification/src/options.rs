//! Per-operation options.

use vstd::prelude::*;
use crate::duration::Duration;
use crate::transport::RequestOptions;
use crate::wire::{ComputerScreenId, ManagedProcessWaitScope, SandboxStatus, TemplateInclude};

verus! {

/// Sandbox list filters.
#[derive(Clone, Debug, Default)]
pub struct ListSandboxesOptions {
    /// Request transport overrides.
    pub request: RequestOptions,
    /// Maximum returned items; `None` walks all pages.
    pub limit: Option<usize>,
    /// Optional lifecycle filter.
    pub status: Option<SandboxStatus>,
}

/// Buffered or streaming command overrides.
#[derive(Clone, Debug, Default)]
pub struct ExecOptions {
    /// Request transport overrides.
    pub request: RequestOptions,
    /// Replaces request stdin when present.
    pub standard_input: Option<String>,
    /// Replaces request environment when present, as name and value.
    pub environment_variables: Option<Vec<(String, String)>>,
}

/// Process output replay options.
#[derive(Clone, Debug, Default)]
pub struct ManagedProcessConnectOptions {
    /// Request transport overrides.
    pub request: RequestOptions,
    /// Last sequence already consumed; replay starts after this value.
    pub after_sequence: i64,
}

/// Process wait options.
#[derive(Clone, Debug, Default)]
pub struct ManagedProcessWaitOptions {
    /// Request transport overrides.
    pub request: RequestOptions,
    /// Whether to wait for the leader or the complete process tree.
    pub scope: Option<ManagedProcessWaitScope>,
    /// Maximum server-side long-poll duration.
    pub wait_timeout: Option<Duration>,
}

/// Process deletion options.
#[derive(Clone, Debug, Default)]
pub struct ManagedProcessDeleteOptions {
    /// Request transport overrides.
    pub request: RequestOptions,
    /// Grace period before the process is forcefully terminated.
    pub grace_period: Option<Duration>,
}

/// Desktop operation options.
#[derive(Clone, Debug, Default)]
pub struct ComputerScreenOptions {
    /// Request transport overrides.
    pub request: RequestOptions,
    /// Screen to target, or the default screen when omitted.
    pub screen_id: Option<ComputerScreenId>,
}

/// Screenshot capture options.
#[derive(Clone, Debug, Default)]
pub struct ComputerScreenshotOptions {
    /// Screen and transport options.
    pub screen: ComputerScreenOptions,
    /// Optional window to capture.
    pub window_id: Option<String>,
    /// Optional crop origin on the x-axis.
    pub x: Option<i32>,
    /// Optional crop origin on the y-axis.
    pub y: Option<i32>,
    /// Optional crop width.
    pub width: Option<u32>,
    /// Optional crop height.
    pub height: Option<u32>,
}

/// Window-list filters.
#[derive(Clone, Debug, Default)]
pub struct ComputerListWindowsOptions {
    /// Screen and transport options.
    pub screen: ComputerScreenOptions,
    /// Optional application-name filter.
    pub application: Option<String>,
}

/// Template detail options.
#[derive(Clone, Debug, Default)]
pub struct GetTemplateOptions {
    /// Request transport overrides.
    pub request: RequestOptions,
    /// Optional additional template field to return.
    pub detail: Option<TemplateInclude>,
}

/// Template log filters.
#[derive(Clone, Debug, Default)]
pub struct TemplateLogsOptions {
    /// Request transport overrides.
    pub request: RequestOptions,
    /// Optional build attempt to inspect.
    pub attempt: Option<u32>,
}

/// Pagination controls.
#[derive(Clone, Copy, Debug, Default)]
pub struct PaginationOptions {
    /// Maximum number of items to return; `None` walks every page.
    pub limit: Option<usize>,
    /// Initial result offset.
    pub offset: usize,
}

/// Sandbox status-polling options.
#[derive(Clone, Debug)]
pub struct WaitOptions {
    /// Total client-side polling budget; zero means the default of two minutes.
    pub timeout: Duration,
    /// Request transport overrides used by each poll.
    pub request: RequestOptions,
}

impl Default for WaitOptions {
    /// A budget of 120 seconds and no transport overrides.
    fn default() -> (r: WaitOptions)
        ensures
            r.timeout@ == 120_000_000_000,
            r.request.headers@.len() == 0,
            r.request.timeout is None,
            r.request.retry is None,
            !r.request.disable_retry,
    {
        WaitOptions { timeout: Duration::from_secs(120), request: RequestOptions::default() }
    }
}

/// Identifies a disk attachment.
#[derive(Clone, Debug, Default)]
pub struct AttachDiskOptions {
    /// Registered disk identifier.
    pub disk_id: String,
    /// Absolute mount path inside the sandbox.
    pub mount_path: String,
    /// Optional path within the registered disk.
    pub sub_path: Option<String>,
}

/// Identifies a disk detachment.
#[derive(Clone, Debug, Default)]
pub struct DetachDiskOptions {
    /// Registered disk identifier.
    pub disk_id: String,
    /// Mount path currently used inside the sandbox.
    pub mount_path: String,
}

} // verus!
