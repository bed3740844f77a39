//! Versioned machine-output envelopes and their payload types.
use crate::error::AppError;
use crate::model::EnvironmentRef;
use crate::provider::{
    Capability, EnvironmentSummary, SiteSummary, WordPressComponent, WordPressComponentKind,
};
use vstd::prelude::*;

verus! {

/// Version of HostBraid's public JSON envelope.
pub const MACHINE_SCHEMA_VERSION: u32 = 1;

/// Non-fatal condition included with a successful command.
#[derive(Debug, PartialEq, Eq)]
pub struct MachineWarning {
    pub code: String,
    pub message: String,
}

impl MachineWarning {
    pub fn new(code: &str, message: &str) -> (r: MachineWarning)
        ensures
            r.code@ == code@,
            r.message@ == message@,
    {
        MachineWarning { code: code.to_owned(), message: message.to_owned() }
    }
}

impl Clone for MachineWarning {
    fn clone(&self) -> (r: Self)
        ensures
            r == *self,
    {
        MachineWarning { code: self.code.clone(), message: self.message.clone() }
    }
}

/// Metadata included in every machine envelope.
#[derive(Debug, PartialEq, Eq)]
pub struct MachineMeta {
    pub cli_version: String,
}

impl MachineMeta {
    pub fn new(cli_version: &str) -> (r: MachineMeta)
        ensures
            r.cli_version@ == cli_version@,
    {
        MachineMeta { cli_version: cli_version.to_owned() }
    }
}

/// Versioned success envelope emitted by `--output json`.
#[derive(Debug, PartialEq, Eq)]
pub struct MachineSuccess<T> {
    pub schema_version: u32,
    pub ok: bool,
    pub command: String,
    pub data: T,
    pub warnings: Vec<MachineWarning>,
    pub meta: MachineMeta,
}

impl<T> MachineSuccess<T> {
    pub fn new(command: &str, data: T, warnings: Vec<MachineWarning>, cli_version: &str) -> (r:
        MachineSuccess<T>)
        ensures
            r.schema_version == MACHINE_SCHEMA_VERSION,
            r.ok,
            r.command@ == command@,
            r.data == data,
            r.warnings == warnings,
            r.meta.cli_version@ == cli_version@,
    {
        MachineSuccess {
            schema_version: MACHINE_SCHEMA_VERSION,
            ok: true,
            command: command.to_owned(),
            data,
            warnings,
            meta: MachineMeta::new(cli_version),
        }
    }
}

/// Versioned failure envelope emitted by machine mode; it has no data field.
#[derive(Debug, PartialEq, Eq)]
pub struct MachineFailure {
    pub schema_version: u32,
    pub ok: bool,
    pub command: String,
    pub error: AppError,
    pub warnings: Vec<MachineWarning>,
    pub meta: MachineMeta,
}

impl MachineFailure {
    pub fn new(command: &str, error: AppError, cli_version: &str) -> (r: MachineFailure)
        ensures
            r.schema_version == MACHINE_SCHEMA_VERSION,
            !r.ok,
            r.command@ == command@,
            r.error == error,
            r.warnings@.len() == 0,
            r.meta.cli_version@ == cli_version@,
    {
        MachineFailure {
            schema_version: MACHINE_SCHEMA_VERSION,
            ok: false,
            command: command.to_owned(),
            error,
            warnings: Vec::new(),
            meta: MachineMeta::new(cli_version),
        }
    }
}

/// Failure envelope that still carries the per-target data of a partially failed command.
#[derive(Debug, PartialEq, Eq)]
pub struct MachinePartialFailure<T> {
    pub schema_version: u32,
    pub ok: bool,
    pub command: String,
    pub error: AppError,
    pub data: T,
    pub warnings: Vec<MachineWarning>,
    pub meta: MachineMeta,
}

impl<T> MachinePartialFailure<T> {
    pub fn new(
        command: &str,
        error: AppError,
        data: T,
        warnings: Vec<MachineWarning>,
        cli_version: &str,
    ) -> (r: MachinePartialFailure<T>)
        ensures
            r.schema_version == MACHINE_SCHEMA_VERSION,
            !r.ok,
            r.command@ == command@,
            r.error == error,
            r.data == data,
            r.warnings == warnings,
            r.meta.cli_version@ == cli_version@,
    {
        MachinePartialFailure {
            schema_version: MACHINE_SCHEMA_VERSION,
            ok: false,
            command: command.to_owned(),
            error,
            data,
            warnings,
            meta: MachineMeta::new(cli_version),
        }
    }
}

/// Payload of `environment list`.
#[derive(Debug, PartialEq, Eq)]
pub struct MachineEnvironmentListData {
    pub site: SiteSummary,
    pub environments: Vec<EnvironmentSummary>,
}

/// Payload of `environment show`.
#[derive(Debug, PartialEq, Eq)]
pub struct MachineEnvironmentShowData {
    pub site: SiteSummary,
    pub environment: EnvironmentSummary,
    pub capabilities: Vec<Capability>,
}

/// Payload of the inventory commands.
#[derive(Debug, PartialEq, Eq)]
pub struct MachineInventoryData {
    pub kind: WordPressComponentKind,
    pub provider_total: u64,
    pub matched_count: usize,
    pub refreshed_at: Option<String>,
    pub components: Vec<WordPressComponent>,
}

#[derive(Debug, Clone, Copy, PartialEq, Eq, Structural)]
pub enum MachineSshExecutionState {
    Succeeded,
    Failed,
    TimedOut,
    Cancelled,
    Skipped,
}

#[derive(Debug, Clone, Copy, PartialEq, Eq, Structural)]
pub enum MachineSshFailureCode {
    TargetUnavailable,
    InvalidTarget,
    SpawnFailed,
    WaitFailed,
    CaptureFailed,
    RemoteExit,
    TimedOut,
    Cancelled,
    FailFast,
}

#[derive(Debug, Clone, Copy, PartialEq, Eq, Structural)]
pub enum MachineSshCaptureEncoding {
    Text,
    Base64,
}

#[derive(Debug, PartialEq, Eq)]
pub struct MachineSshFailure {
    pub code: MachineSshFailureCode,
    pub message: String,
}

#[derive(Debug, PartialEq, Eq)]
pub struct MachineSshCapturedStream {
    pub encoding: MachineSshCaptureEncoding,
    pub data: String,
    pub truncated: bool,
    pub captured_bytes: usize,
}

#[derive(Debug, PartialEq, Eq)]
pub struct MachineSshTargetResult {
    pub environment: EnvironmentRef,
    pub state: MachineSshExecutionState,
    pub exit_code: Option<i32>,
    pub duration_ms: u64,
    pub stdout: MachineSshCapturedStream,
    pub stderr: MachineSshCapturedStream,
    pub failure: Option<MachineSshFailure>,
}

/// Payload of `ssh run`, shared by its success and partial-failure envelopes.
#[derive(Debug, PartialEq, Eq)]
pub struct MachineSshRunData {
    pub results: Vec<MachineSshTargetResult>,
    pub stream_capture_limit_bytes: usize,
}

} // verus!
