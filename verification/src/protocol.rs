//! Data model of the job-control protocol.
//!
//! A requester sends one `Command` per transaction over the command channel
//! and receives the response pair that the command's type determines.  A
//! worker streams `JobStatus` snapshots over the monitor channel while a
//! monitored job is in one of the active states.

use vstd::prelude::*;

verus! {

/// Upper bound on the length of an encoded command.
pub const MAX_COMMAND: usize = 0x4000;

/// Upper bound on the length of an encoded response.  The cap is small, so
/// failures travel as numeric codes rather than free text.
pub const MAX_RESPONSE: usize = 128;

/// Opaque 128-bit identifier naming a job inside the engine.
#[derive(Clone, Copy, PartialEq, Eq, Structural, Debug)]
pub struct JobId {
    pub hi: u64,
    pub lo: u64,
}

impl JobId {
    /// The 128-bit value this identifier names.
    pub open spec fn token(self) -> u128 {
        (self.hi * 0x1_0000_0000_0000_0000 + self.lo) as u128
    }
}

/// Where and how often a started or re-attached job should be monitored.
/// Its presence in a command is what asks the worker to spawn a bridge.
#[derive(Clone, Debug)]
pub struct MonitorConfig {
    /// Name of the monitor channel the requester has already created.
    pub channel_name: Vec<u8>,
    /// Poll interval of the bridge, in milliseconds.
    pub interval_ms: u32,
}

/// Mathematical image of a `MonitorConfig`.
#[verifier::ext_equal]
pub struct MonitorConfigV {
    pub channel_name: Seq<u8>,
    pub interval_ms: u32,
}

impl View for MonitorConfig {
    type V = MonitorConfigV;

    open spec fn view(&self) -> MonitorConfigV {
        MonitorConfigV { channel_name: self.channel_name@, interval_ms: self.interval_ms }
    }
}

/// View of an optional monitor configuration.
pub open spec fn opt_monitor_view(m: Option<MonitorConfig>) -> Option<MonitorConfigV> {
    match m {
        Some(c) => Some(c@),
        None => None,
    }
}

/// Ask the worker to create a new download job and start it.
#[derive(Clone, Debug)]
pub struct StartJobCommand {
    /// Remote source of the single file transfer.
    pub url: Vec<u8>,
    /// Local destination of the transfer.
    pub save_path: Vec<u8>,
    /// Present when the requester wants a monitor bridge for the new job.
    pub monitor: Option<MonitorConfig>,
}

/// Ask the worker to attach a monitor bridge to an existing job.
#[derive(Clone, Debug)]
pub struct MonitorJobCommand {
    pub job_id: JobId,
    pub monitor: Option<MonitorConfig>,
}

/// Ask the worker to cancel an existing job.
#[derive(Clone, Copy, PartialEq, Eq, Structural, Debug)]
pub struct CancelJobCommand {
    pub job_id: JobId,
}

/// Any command of the protocol.
#[derive(Clone, Debug)]
pub enum Command {
    StartJob(StartJobCommand),
    MonitorJob(MonitorJobCommand),
    CancelJob(CancelJobCommand),
}

/// Mathematical image of a `Command`.
#[verifier::ext_equal]
pub enum CommandV {
    StartJob { url: Seq<u8>, save_path: Seq<u8>, monitor: Option<MonitorConfigV> },
    MonitorJob { job_id: JobId, monitor: Option<MonitorConfigV> },
    CancelJob { job_id: JobId },
}

impl View for Command {
    type V = CommandV;

    open spec fn view(&self) -> CommandV {
        match self {
            Command::StartJob(c) => CommandV::StartJob {
                url: c.url@,
                save_path: c.save_path@,
                monitor: opt_monitor_view(c.monitor),
            },
            Command::MonitorJob(c) => CommandV::MonitorJob {
                job_id: c.job_id,
                monitor: opt_monitor_view(c.monitor),
            },
            Command::CancelJob(c) => CommandV::CancelJob { job_id: c.job_id },
        }
    }
}

/// Successful reply to `StartJob`: the identifier of the new job.
#[derive(Clone, Copy, PartialEq, Eq, Structural, Debug)]
pub struct StartJobSuccess {
    pub job_id: JobId,
}

/// Successful reply to `MonitorJob`.
#[derive(Clone, Copy, PartialEq, Eq, Structural, Debug)]
pub struct MonitorJobSuccess;

/// Successful reply to `CancelJob`.
#[derive(Clone, Copy, PartialEq, Eq, Structural, Debug)]
pub struct CancelJobSuccess;

/// A job-engine call failed.  Compact by design: the response cap leaves no
/// room for descriptive text.
#[derive(Clone, Copy, PartialEq, Eq, Structural, Debug)]
pub enum EngineError {
    /// No job with the given identifier exists in the engine.
    NotFound,
    /// Any other engine failure: a context tag and the engine's status code.
    Status { context: u32, code: u32 },
}

/// Failed reply to a command, bounded so that it always fits the response cap.
#[derive(Clone, Copy, PartialEq, Eq, Structural, Debug)]
pub enum Failure {
    EngineError(EngineError),
}

/// State of a job inside the engine.
#[derive(Clone, Copy, PartialEq, Eq, Structural, Debug)]
pub enum JobState {
    Queued,
    Connecting,
    Transferring,
    Suspended,
    Error,
    TransientError,
    Transferred,
    Acknowledged,
    Cancelled,
}

/// Monitoring continues exactly while the observed state is active.
pub open spec fn is_active(s: JobState) -> bool {
    s == JobState::Connecting || s == JobState::Transferring || s == JobState::TransientError
}

/// Decide whether monitoring should continue for a state.
pub fn state_is_active(s: JobState) -> (r: bool)
    ensures
        r == is_active(s),
{
    match s {
        JobState::Connecting => true,
        JobState::Transferring => true,
        JobState::TransientError => true,
        _ => false,
    }
}

/// Byte and file counters of a job.
#[derive(Clone, Copy, PartialEq, Eq, Structural, Debug)]
pub struct JobProgress {
    pub bytes_total: u64,
    pub bytes_transferred: u64,
    pub files_total: u32,
    pub files_transferred: u32,
}

/// Last error the engine recorded for a job: a context tag and a status code.
#[derive(Clone, Copy, PartialEq, Eq, Structural, Debug)]
pub struct JobError {
    pub context: u32,
    pub code: u32,
}

/// One snapshot of a job, as streamed over the monitor channel.
#[derive(Clone, Copy, PartialEq, Eq, Debug)]
pub struct JobStatus {
    pub state: JobState,
    pub progress: JobProgress,
    pub error_count: u32,
    pub error: Option<JobError>,
}

/// Encoding a command failed: the result would exceed `MAX_COMMAND`.
#[derive(Clone, Copy, PartialEq, Eq, Structural, Debug)]
pub enum EncodingError {
    TooLong,
}

/// Decoding an envelope failed.
#[derive(Clone, Copy, PartialEq, Eq, Structural, Debug)]
pub enum DecodingError {
    /// The input ends before the envelope does.
    Truncated,
    /// The leading tag names no known envelope.
    UnknownTag,
    /// A field holds a byte that no value of the field's type encodes to.
    Malformed,
    /// Bytes follow a complete envelope.
    TrailingData,
}

} // verus!
