//! Live streaming sessions: admission of a new session and the life of the
//! task that feeds a session's packets to its output protocols.
//!
//! The task waits on the monitor's packet channel and on the health of its
//! reader. Its decisions are a state machine over [`TaskEvent`]s: the
//! caller performs the I/O, reports what happened, and carries out the
//! returned [`TaskAction`].

use vstd::prelude::*;

verus! {

/// Seconds the processing task waits for the first video packet before it
/// marks the session as failed.
pub const STARTUP_TIMEOUT_SECS: u64 = 15;

/// Status of a live streaming session.
#[derive(Debug, Clone, Copy, PartialEq, Eq, Structural)]
pub enum SessionStatus {
    Starting,
    Active,
    Stopping,
    Stopped,
    Error,
}

impl SessionStatus {
    /// The status's name as reported to clients (lower case).
    pub fn as_str(&self) -> (r: &'static str)
        ensures
            r@ == spec_session_status_name(*self),
    {
        match self {
            SessionStatus::Starting => "starting",
            SessionStatus::Active => "active",
            SessionStatus::Stopping => "stopping",
            SessionStatus::Stopped => "stopped",
            SessionStatus::Error => "error",
        }
    }
}

/// The lower-case name of a session status.
pub open spec fn spec_session_status_name(s: SessionStatus) -> Seq<char> {
    match s {
        SessionStatus::Starting => "starting"@,
        SessionStatus::Active => "active"@,
        SessionStatus::Stopping => "stopping"@,
        SessionStatus::Stopped => "stopped"@,
        SessionStatus::Error => "error"@,
    }
}

/// Which output protocols a live session feeds.
#[derive(Debug, Clone, Copy, PartialEq, Eq, Structural)]
pub struct LiveStreamConfig {
    pub enable_hls: bool,
    pub enable_webrtc: bool,
    pub enable_mse: bool,
}

impl Default for LiveStreamConfig {
    /// HLS only.
    fn default() -> (r: Self)
        ensures
            r.enable_hls,
            !r.enable_webrtc,
            !r.enable_mse,
    {
        LiveStreamConfig { enable_hls: true, enable_webrtc: false, enable_mse: false }
    }
}

/// Coordinator errors.
#[derive(Debug, Clone, PartialEq, Eq)]
pub enum CoordinatorError {
    SessionExists(u32),
    SessionNotFound(u32),
    SourceNotAvailable(u32),
    HlsNotConfigured,
    SourceError(String),
    HlsError(String),
}

/// Why a session cannot start, checked in order: it exists already; HLS is
/// asked for but not configured; the monitor has no source.
pub open spec fn spec_start_check(
    monitor_id: u32,
    exists: bool,
    config: LiveStreamConfig,
    hls_configured: bool,
    source_available: bool,
) -> Option<CoordinatorError> {
    if exists {
        Some(CoordinatorError::SessionExists(monitor_id))
    } else if config.enable_hls && !hls_configured {
        Some(CoordinatorError::HlsNotConfigured)
    } else if !source_available {
        Some(CoordinatorError::SourceNotAvailable(monitor_id))
    } else {
        None
    }
}

/// Check whether a session for `monitor_id` may start.
pub fn check_start(
    monitor_id: u32,
    exists: bool,
    config: &LiveStreamConfig,
    hls_configured: bool,
    source_available: bool,
) -> (r: Result<(), CoordinatorError>)
    ensures
        match r {
            Ok(()) => spec_start_check(monitor_id, exists, *config, hls_configured, source_available) is None,
            Err(e) => spec_start_check(monitor_id, exists, *config, hls_configured, source_available) == Some(e),
        },
{
    if exists {
        Err(CoordinatorError::SessionExists(monitor_id))
    } else if config.enable_hls && !hls_configured {
        Err(CoordinatorError::HlsNotConfigured)
    } else if !source_available {
        Err(CoordinatorError::SourceNotAvailable(monitor_id))
    } else {
        Ok(())
    }
}

/// Stopping a session that does not exist fails.
pub fn check_stop(monitor_id: u32, exists: bool) -> (r: Result<(), CoordinatorError>)
    ensures
        exists <==> r is Ok,
        !exists ==> r == Err::<(), CoordinatorError>(CoordinatorError::SessionNotFound(monitor_id)),
{
    if exists { Ok(()) } else { Err(CoordinatorError::SessionNotFound(monitor_id)) }
}

/// What the processing task observed.
#[derive(Debug, Clone, Copy, PartialEq, Eq, Structural)]
pub enum TaskEvent {
    /// A video packet arrived.
    Packet,
    /// Feeding the packet to HLS failed.
    HlsFailed,
    /// The receiver fell behind: packets are flowing but some were missed.
    Lagged,
    /// The packet channel closed.
    Closed,
    /// The startup timeout expired.
    StartupTimeout,
    /// The reader's health changed.
    HealthChanged,
    /// The reader task exited.
    ReaderExited,
}

/// What the processing task does next.
#[derive(Debug, Clone, Copy, PartialEq, Eq, Structural)]
pub enum TaskAction {
    /// Wait for the next event.
    Wait,
    /// Feed the packet to the HLS session, then wait.
    FeedHls,
    /// End the task.
    Stop,
}

/// The session as the processing task keeps it.
#[derive(Debug, Clone, Copy, PartialEq, Eq, Structural)]
pub struct TaskState {
    pub status: SessionStatus,
    pub received_first_packet: bool,
    pub packets_processed: u64,
    pub errors: u64,
}

/// A counter advanced by one, stopping at its maximum.
pub open spec fn bump(n: u64) -> u64 {
    if n < u64::MAX { (n + 1) as u64 } else { n }
}

/// Whether the task feeds packets to HLS.
pub open spec fn feeds_hls(config: LiveStreamConfig, hls_configured: bool) -> bool {
    config.enable_hls && hls_configured
}

/// The session of a task that has not yet seen a packet.
pub open spec fn spec_task_start() -> TaskState {
    TaskState { status: SessionStatus::Starting, received_first_packet: false, packets_processed: 0, errors: 0 }
}

/// One step of the processing task.
///
/// The first packet (or a lag, which shows packets are flowing) makes the
/// session active. Each packet is counted and fed to HLS when the session
/// has it; an HLS failure is counted as an error. Before the first packet,
/// the startup timeout or the reader's exit fail the session; after it, the
/// reader's exit or the channel's closing stop it. A health change only
/// makes the task wait on.
pub open spec fn spec_task_step(s: TaskState, ev: TaskEvent, config: LiveStreamConfig, hls_configured: bool) -> (TaskState, TaskAction) {
    match ev {
        TaskEvent::Packet => (
            TaskState {
                status: if s.received_first_packet { s.status } else { SessionStatus::Active },
                received_first_packet: true,
                packets_processed: bump(s.packets_processed),
                ..s
            },
            if feeds_hls(config, hls_configured) { TaskAction::FeedHls } else { TaskAction::Wait },
        ),
        TaskEvent::HlsFailed => (TaskState { errors: bump(s.errors), ..s }, TaskAction::Wait),
        TaskEvent::Lagged => (
            TaskState {
                status: if s.received_first_packet { s.status } else { SessionStatus::Active },
                received_first_packet: true,
                ..s
            },
            TaskAction::Wait,
        ),
        TaskEvent::Closed => (TaskState { status: SessionStatus::Stopped, ..s }, TaskAction::Stop),
        TaskEvent::StartupTimeout => if s.received_first_packet {
            (s, TaskAction::Wait)
        } else {
            (TaskState { status: SessionStatus::Error, ..s }, TaskAction::Stop)
        },
        TaskEvent::HealthChanged => (s, TaskAction::Wait),
        TaskEvent::ReaderExited => (
            TaskState {
                status: if s.received_first_packet { SessionStatus::Stopped } else { SessionStatus::Error },
                ..s
            },
            TaskAction::Stop,
        ),
    }
}

/// A counter advanced by one, stopping at its maximum.
fn bump_counter(n: u64) -> (r: u64)
    ensures
        r == bump(n),
{
    if n < u64::MAX { n + 1 } else { n }
}

impl TaskState {
    /// A session whose task has not yet seen a packet.
    pub fn start() -> (r: TaskState)
        ensures
            r == spec_task_start(),
    {
        TaskState { status: SessionStatus::Starting, received_first_packet: false, packets_processed: 0, errors: 0 }
    }

    /// Apply one event (see [`spec_task_step`]) and return what to do next.
    pub fn step(&mut self, ev: TaskEvent, config: &LiveStreamConfig, hls_configured: bool) -> (a: TaskAction)
        ensures
            (*final(self), a) == spec_task_step(*old(self), ev, *config, hls_configured),
    {
        match ev {
            TaskEvent::Packet => {
                if !self.received_first_packet {
                    self.status = SessionStatus::Active;
                }
                self.received_first_packet = true;
                self.packets_processed = bump_counter(self.packets_processed);
                if config.enable_hls && hls_configured { TaskAction::FeedHls } else { TaskAction::Wait }
            },
            TaskEvent::HlsFailed => {
                self.errors = bump_counter(self.errors);
                TaskAction::Wait
            },
            TaskEvent::Lagged => {
                if !self.received_first_packet {
                    self.status = SessionStatus::Active;
                }
                self.received_first_packet = true;
                TaskAction::Wait
            },
            TaskEvent::Closed => {
                self.status = SessionStatus::Stopped;
                TaskAction::Stop
            },
            TaskEvent::StartupTimeout => {
                if self.received_first_packet {
                    TaskAction::Wait
                } else {
                    self.status = SessionStatus::Error;
                    TaskAction::Stop
                }
            },
            TaskEvent::HealthChanged => TaskAction::Wait,
            TaskEvent::ReaderExited => {
                self.status = if self.received_first_packet { SessionStatus::Stopped } else { SessionStatus::Error };
                TaskAction::Stop
            },
        }
    }
}

/// The task states reachable from the start.
pub open spec fn task_reachable(s: TaskState) -> bool {
    &&& (s.received_first_packet ==> s.status != SessionStatus::Starting)
    &&& (s.status == SessionStatus::Active ==> s.received_first_packet)
    &&& s.status != SessionStatus::Stopping
}

/// Every step keeps the session's status in line with what the task saw:
/// it leaves `Starting` with the first packet and is `Active` only after
/// one; a session that saw no packet ends in `Error` when the startup
/// timeout expires or its reader exits.
pub proof fn lemma_task_step_keeps_status(s: TaskState, ev: TaskEvent, config: LiveStreamConfig, hls_configured: bool)
    requires
        task_reachable(s),
    ensures
        task_reachable(spec_task_step(s, ev, config, hls_configured).0),
        (ev == TaskEvent::StartupTimeout || ev == TaskEvent::ReaderExited) && !s.received_first_packet
            ==> spec_task_step(s, ev, config, hls_configured).0.status == SessionStatus::Error
                && spec_task_step(s, ev, config, hls_configured).1 == TaskAction::Stop,
{
}

/// The counters of a session only grow, and each packet is counted.
pub proof fn lemma_task_counters_monotone(s: TaskState, ev: TaskEvent, config: LiveStreamConfig, hls_configured: bool)
    ensures
        spec_task_step(s, ev, config, hls_configured).0.packets_processed >= s.packets_processed,
        spec_task_step(s, ev, config, hls_configured).0.errors >= s.errors,
        ev == TaskEvent::Packet && s.packets_processed < u64::MAX
            ==> spec_task_step(s, ev, config, hls_configured).0.packets_processed == s.packets_processed + 1,
{
}

/// The start of a task is a reachable state.
pub proof fn lemma_task_start_reachable()
    ensures
        task_reachable(spec_task_start()),
{
}

} // verus!
