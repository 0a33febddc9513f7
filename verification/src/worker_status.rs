//! Status of a zm-next worker, folded from its hello and its status events.
//!
//! The worker reports a worker state (`0x0401`), authentication failures of
//! a stream (`0x0402`), degraded dependencies (`0x0403`) and the canonical
//! per-stream lifecycle events: connection failed/restored (`0x0101`,
//! `0x0102`) and capture failed/resumed (`0x0105`, `0x0106`). This module
//! decides what each of them means; the JSON detail they carry is read by
//! the caller.

use vstd::prelude::*;
use crate::protocol::{
    EVENT_CAPTURE_FAILED, EVENT_CAPTURE_RESUMED, EVENT_CONNECTION_FAILED, EVENT_CONNECTION_RESTORED,
};
use crate::router::opt_chars;
use crate::storage::str_equal;
use crate::text::push_str;

verus! {

/// Worker state changed (`unconfigured`, `configuring`, `running`, `stopping`).
pub const EVENT_WORKER_STATE: u16 = 0x0401;
/// A camera rejected a stream's credentials.
pub const EVENT_STREAM_AUTH_FAILED: u16 = 0x0402;
/// A dependency of the worker is down (or back, with an empty effect).
pub const EVENT_WORKER_DEGRADED: u16 = 0x0403;

/// Health of one capture stream.
#[derive(Debug, Clone, Copy, PartialEq, Eq, Structural)]
pub enum StreamState {
    Streaming,
    ConnectionFailed,
    CaptureFailed,
    /// The camera rejected the credentials; the worker retries slowly.
    AuthFailed,
}

impl StreamState {
    /// The state's name as reported to clients (snake case).
    pub fn as_str(&self) -> (r: &'static str)
        ensures
            r@ == spec_stream_state_name(*self),
    {
        match self {
            StreamState::Streaming => "streaming",
            StreamState::ConnectionFailed => "connection_failed",
            StreamState::CaptureFailed => "capture_failed",
            StreamState::AuthFailed => "auth_failed",
        }
    }
}

/// The snake-case name of a stream state.
pub open spec fn spec_stream_state_name(s: StreamState) -> Seq<char> {
    match s {
        StreamState::Streaming => "streaming"@,
        StreamState::ConnectionFailed => "connection_failed"@,
        StreamState::CaptureFailed => "capture_failed"@,
        StreamState::AuthFailed => "auth_failed"@,
    }
}

/// The status events, one per event code.
#[derive(Debug, Clone, Copy, PartialEq, Eq, Structural)]
pub enum StatusKind {
    WorkerState,
    StreamAuthFailed,
    WorkerDegraded,
    ConnectionFailed,
    ConnectionRestored,
    CaptureFailed,
    CaptureResumed,
}

/// The status event an event code is, if it is one.
pub open spec fn spec_status_kind(code: u16) -> Option<StatusKind> {
    if code == EVENT_WORKER_STATE {
        Some(StatusKind::WorkerState)
    } else if code == EVENT_STREAM_AUTH_FAILED {
        Some(StatusKind::StreamAuthFailed)
    } else if code == EVENT_WORKER_DEGRADED {
        Some(StatusKind::WorkerDegraded)
    } else if code == EVENT_CONNECTION_FAILED {
        Some(StatusKind::ConnectionFailed)
    } else if code == EVENT_CONNECTION_RESTORED {
        Some(StatusKind::ConnectionRestored)
    } else if code == EVENT_CAPTURE_FAILED {
        Some(StatusKind::CaptureFailed)
    } else if code == EVENT_CAPTURE_RESUMED {
        Some(StatusKind::CaptureResumed)
    } else {
        None
    }
}

/// The name under which a change is reported to subscribers.
pub open spec fn spec_status_kind_name(k: StatusKind) -> Seq<char> {
    match k {
        StatusKind::WorkerState => "worker_state"@,
        StatusKind::StreamAuthFailed => "stream_auth_failed"@,
        StatusKind::WorkerDegraded => "worker_degraded"@,
        StatusKind::ConnectionFailed => "connection_failed"@,
        StatusKind::ConnectionRestored => "connection_restored"@,
        StatusKind::CaptureFailed => "capture_failed"@,
        StatusKind::CaptureResumed => "capture_resumed"@,
    }
}

/// The state a stream is put in by an event, for the per-stream events.
pub open spec fn spec_stream_state_after(k: StatusKind) -> Option<StreamState> {
    match k {
        StatusKind::StreamAuthFailed => Some(StreamState::AuthFailed),
        StatusKind::ConnectionFailed => Some(StreamState::ConnectionFailed),
        StatusKind::CaptureFailed => Some(StreamState::CaptureFailed),
        StatusKind::ConnectionRestored => Some(StreamState::Streaming),
        StatusKind::CaptureResumed => Some(StreamState::Streaming),
        _ => None,
    }
}

impl StatusKind {
    /// Classify an event code; `None` for codes that are not status.
    pub fn from_code(code: u16) -> (r: Option<StatusKind>)
        ensures
            r == spec_status_kind(code),
    {
        if code == EVENT_WORKER_STATE {
            Some(StatusKind::WorkerState)
        } else if code == EVENT_STREAM_AUTH_FAILED {
            Some(StatusKind::StreamAuthFailed)
        } else if code == EVENT_WORKER_DEGRADED {
            Some(StatusKind::WorkerDegraded)
        } else if code == EVENT_CONNECTION_FAILED {
            Some(StatusKind::ConnectionFailed)
        } else if code == EVENT_CONNECTION_RESTORED {
            Some(StatusKind::ConnectionRestored)
        } else if code == EVENT_CAPTURE_FAILED {
            Some(StatusKind::CaptureFailed)
        } else if code == EVENT_CAPTURE_RESUMED {
            Some(StatusKind::CaptureResumed)
        } else {
            None
        }
    }

    /// The change's name.
    pub fn as_str(&self) -> (r: &'static str)
        ensures
            r@ == spec_status_kind_name(*self),
    {
        match self {
            StatusKind::WorkerState => "worker_state",
            StatusKind::StreamAuthFailed => "stream_auth_failed",
            StatusKind::WorkerDegraded => "worker_degraded",
            StatusKind::ConnectionFailed => "connection_failed",
            StatusKind::ConnectionRestored => "connection_restored",
            StatusKind::CaptureFailed => "capture_failed",
            StatusKind::CaptureResumed => "capture_resumed",
        }
    }

    /// The state the event puts its stream in; `None` for the worker-wide
    /// events (worker state, degraded dependency).
    pub fn stream_state(&self) -> (r: Option<StreamState>)
        ensures
            r == spec_stream_state_after(*self),
    {
        match self {
            StatusKind::StreamAuthFailed => Some(StreamState::AuthFailed),
            StatusKind::ConnectionFailed => Some(StreamState::ConnectionFailed),
            StatusKind::CaptureFailed => Some(StreamState::CaptureFailed),
            StatusKind::ConnectionRestored => Some(StreamState::Streaming),
            StatusKind::CaptureResumed => Some(StreamState::Streaming),
            _ => None,
        }
    }

    /// Whether a stream put in this state keeps the error that came with
    /// the event: a recovery clears it.
    pub fn keeps_error(&self) -> (r: bool)
        ensures
            r == (spec_stream_state_after(*self) is Some && spec_stream_state_after(*self) != Some(StreamState::Streaming)),
    {
        match self {
            StatusKind::StreamAuthFailed | StatusKind::ConnectionFailed | StatusKind::CaptureFailed => true,
            _ => false,
        }
    }
}

/// Unix milliseconds of a status event: its wall clock when it has one,
/// else the current time.
pub fn status_time_ms(wall_clock_us: Option<u64>, now_ms: i64) -> (r: i64)
    ensures
        r == match wall_clock_us {
            Some(us) => (us / 1000) as int,
            None => now_ms as int,
        },
{
    match wall_clock_us {
        Some(us) => (us / 1000) as i64,
        None => now_ms,
    }
}

/// The stream a per-stream event is about: its `stream_id` detail, cut to
/// 32 bits, or stream 0 when it has none.
pub fn event_stream_id(stream_id: Option<u64>) -> (r: u32)
    ensures
        r == match stream_id {
            Some(v) => v as u32,
            None => 0u32,
        },
{
    match stream_id {
        Some(v) => v as u32,
        None => 0,
    }
}

/// The error to record for a stream: the detail's `error` field, else the
/// event's plain-text message when the event carries no JSON detail.
pub fn status_error(detail_error: Option<String>, message: Option<String>, has_detail: bool) -> (r: Option<String>)
    ensures
        r == match detail_error {
            Some(e) => Some(e),
            None => if has_detail { None } else { message },
        },
{
    match detail_error {
        Some(e) => Some(e),
        None => if has_detail { None } else { message },
    }
}

/// The worker state after a worker-state event: the event's `state`, or
/// the previous state when the event names none.
pub fn next_worker_state(reported: Option<String>, previous: Option<String>) -> (r: Option<String>)
    ensures
        r == match reported {
            Some(s) => Some(s),
            None => previous,
        },
{
    match reported {
        Some(s) => Some(s),
        None => previous,
    }
}

/// What a degraded event does to the set of degraded components.
#[derive(Debug, PartialEq, Eq)]
pub enum DegradedUpdate {
    /// The component is down with this effect.
    Down { component: String, effect: String },
    /// The component recovered.
    Recovered { component: String },
}

/// Decide a degraded event: the component (`"unknown"` when unnamed) is
/// recorded with its effect, or cleared when the effect is absent or empty.
pub fn degraded_update(component: Option<String>, effect: Option<String>) -> (r: DegradedUpdate)
    ensures
        ({
            let c = match component {
                Some(c) => c@,
                None => "unknown"@,
            };
            match effect {
                Some(e) if e@.len() > 0 => r matches DegradedUpdate::Down { component: rc, effect: re }
                    && rc@ == c && re@ == e@,
                _ => r matches DegradedUpdate::Recovered { component: rc } && rc@ == c,
            }
        }),
{
    let c = match component {
        Some(c) => c,
        None => {
            let mut u = String::new();
            push_str(&mut u, "unknown");
            assert(Seq::<char>::empty() + "unknown"@ =~= "unknown"@);
            u
        },
    };
    match effect {
        Some(e) => {
            if e.unicode_len() > 0 {
                DegradedUpdate::Down { component: c, effect: e }
            } else {
                DegradedUpdate::Recovered { component: c }
            }
        },
        None => DegradedUpdate::Recovered { component: c },
    }
}

/// The zm-next version as shown to clients: `version`, followed by the
/// commit in parentheses when there is one.
pub open spec fn spec_version_text(version: Seq<char>, commit: Seq<char>) -> Seq<char> {
    if commit.len() == 0 {
        version
    } else {
        version + " ("@ + commit + ")"@
    }
}

/// The version text of a hello (see [`spec_version_text`]).
pub fn version_text(version: &str, commit: &str) -> (r: String)
    ensures
        r@ == spec_version_text(version@, commit@),
{
    let mut out = String::new();
    push_str(&mut out, version);
    if commit.unicode_len() > 0 {
        push_str(&mut out, " (");
        push_str(&mut out, commit);
        push_str(&mut out, ")");
    }
    assert(Seq::<char>::empty() + version@ =~= version@);
    out
}

/// The control protocol version of a hello; a worker that predates it
/// reports 0, which counts as none.
pub fn control_protocol(control: u32) -> (r: Option<u32>)
    ensures
        r == if control > 0 { Some(control) } else { None::<u32> },
{
    if control > 0 { Some(control) } else { None }
}

// ---------------------------------------------------------------------------
// The worker's record
// ---------------------------------------------------------------------------

/// The index of the first entry keyed `k`, or -1 when there is none.
pub open spec fn key_index<K, V>(s: Seq<(K, V)>, k: K) -> int
    decreases s.len(),
{
    if s.len() == 0 {
        -1
    } else if s[0].0 == k {
        0
    } else {
        let r = key_index(s.drop_first(), k);
        if r < 0 { -1 } else { r + 1 }
    }
}

/// The entries with `k` set to `v`: the first entry keyed `k` is replaced,
/// or the pair is appended when there is none.
pub open spec fn seq_upsert<K, V>(s: Seq<(K, V)>, k: K, v: V) -> Seq<(K, V)> {
    let i = key_index(s, k);
    if i < 0 { s.push((k, v)) } else { s.update(i, (k, v)) }
}

/// The entries without the first one keyed `k`.
pub open spec fn seq_remove_key<K, V>(s: Seq<(K, V)>, k: K) -> Seq<(K, V)> {
    let i = key_index(s, k);
    if i < 0 { s } else { s.remove(i) }
}

proof fn lemma_key_index<K, V>(s: Seq<(K, V)>, k: K, i: int)
    requires
        0 <= i <= s.len(),
        forall|j: int| 0 <= j < i ==> s[j].0 != k,
        i == s.len() || s[i].0 == k,
    ensures
        key_index(s, k) == (if i == s.len() { -1 } else { i }),
    decreases s.len(),
{
    if s.len() > 0 && i > 0 {
        assert forall|j: int| 0 <= j < i - 1 implies s.drop_first()[j].0 != k by {
            assert(s.drop_first()[j] == s[j + 1]);
        }
        if i < s.len() {
            assert(s.drop_first()[i - 1] == s[i]);
        }
        lemma_key_index(s.drop_first(), k, i - 1);
    }
}

proof fn lemma_key_index_range<K, V>(s: Seq<(K, V)>, k: K)
    ensures
        -1 <= key_index(s, k) < s.len(),
        key_index(s, k) >= 0 ==> s[key_index(s, k)].0 == k,
    decreases s.len(),
{
    if s.len() > 0 && s[0].0 != k {
        lemma_key_index_range(s.drop_first(), k);
        let r = key_index(s.drop_first(), k);
        if r >= 0 {
            assert(s.drop_first()[r] == s[r + 1]);
        }
    }
}

/// What is known of one capture stream (the worker's retry delay, a
/// floating-point number, is kept by the caller).
#[derive(Debug, Clone, PartialEq, Eq)]
pub struct StreamRecord {
    pub state: StreamState,
    pub error: Option<String>,
    /// Consecutive failed attempts, when the worker reports it.
    pub attempt: Option<u64>,
    /// Unix milliseconds of the event that set this state.
    pub since_ms: i64,
}

/// The value of a [`StreamRecord`].
pub struct StreamRecordView {
    pub state: StreamState,
    pub error: Option<Seq<char>>,
    pub attempt: Option<u64>,
    pub since_ms: i64,
}

impl View for StreamRecord {
    type V = StreamRecordView;

    open spec fn view(&self) -> StreamRecordView {
        StreamRecordView { state: self.state, error: opt_chars(self.error), attempt: self.attempt, since_ms: self.since_ms }
    }
}

/// What is known of a worker now: its state and reason, pipeline hash,
/// versions and control capabilities from the hello, each stream's health
/// (by stream id) and each degraded dependency's effect (by component).
#[derive(Debug, Clone, PartialEq, Eq)]
pub struct WorkerRecord {
    pub state: Option<String>,
    pub reason: Option<String>,
    pub pipeline_hash: Option<String>,
    pub zm_next_version: Option<String>,
    pub control_protocol: Option<u32>,
    pub control_peer: bool,
    pub streams: Vec<(u32, StreamRecord)>,
    pub degraded: Vec<(String, String)>,
}

/// The value of a [`WorkerRecord`].
pub struct WorkerRecordView {
    pub state: Option<Seq<char>>,
    pub reason: Option<Seq<char>>,
    pub pipeline_hash: Option<Seq<char>>,
    pub zm_next_version: Option<Seq<char>>,
    pub control_protocol: Option<u32>,
    pub control_peer: bool,
    pub streams: Seq<(u32, StreamRecordView)>,
    pub degraded: Seq<(Seq<char>, Seq<char>)>,
}

impl View for WorkerRecord {
    type V = WorkerRecordView;

    open spec fn view(&self) -> WorkerRecordView {
        WorkerRecordView {
            state: opt_chars(self.state),
            reason: opt_chars(self.reason),
            pipeline_hash: opt_chars(self.pipeline_hash),
            zm_next_version: opt_chars(self.zm_next_version),
            control_protocol: self.control_protocol,
            control_peer: self.control_peer,
            streams: self.streams@.map_values(|p: (u32, StreamRecord)| (p.0, p.1@)),
            degraded: self.degraded@.map_values(|p: (String, String)| (p.0@, p.1@)),
        }
    }
}

/// A status event as read from the wire: its kind, clock, and the detail
/// fields the fold reads (absent ones `None`). `has_detail` says whether the
/// event carried a JSON detail at all.
#[derive(Debug, Clone, PartialEq, Eq)]
pub struct StatusEvent {
    pub kind: StatusKind,
    pub wall_clock_us: Option<u64>,
    pub now_ms: i64,
    pub stream_id: Option<u64>,
    pub error: Option<String>,
    pub message: Option<String>,
    pub has_detail: bool,
    pub attempt: Option<u64>,
    pub state: Option<String>,
    pub reason: Option<String>,
    pub pipeline_hash: Option<String>,
    pub component: Option<String>,
    pub effect: Option<String>,
}

/// The value of a [`StatusEvent`].
pub struct StatusEventView {
    pub kind: StatusKind,
    pub wall_clock_us: Option<u64>,
    pub now_ms: i64,
    pub stream_id: Option<u64>,
    pub error: Option<Seq<char>>,
    pub message: Option<Seq<char>>,
    pub has_detail: bool,
    pub attempt: Option<u64>,
    pub state: Option<Seq<char>>,
    pub reason: Option<Seq<char>>,
    pub pipeline_hash: Option<Seq<char>>,
    pub component: Option<Seq<char>>,
    pub effect: Option<Seq<char>>,
}

impl View for StatusEvent {
    type V = StatusEventView;

    open spec fn view(&self) -> StatusEventView {
        StatusEventView {
            kind: self.kind,
            wall_clock_us: self.wall_clock_us,
            now_ms: self.now_ms,
            stream_id: self.stream_id,
            error: opt_chars(self.error),
            message: opt_chars(self.message),
            has_detail: self.has_detail,
            attempt: self.attempt,
            state: opt_chars(self.state),
            reason: opt_chars(self.reason),
            pipeline_hash: opt_chars(self.pipeline_hash),
            component: opt_chars(self.component),
            effect: opt_chars(self.effect),
        }
    }
}

/// Folding a status event into the record. A worker-state event sets the
/// state (kept when the event names none), always replaces the reason, and
/// replaces the pipeline hash only when it names one. A degraded event
/// records the component's effect (`"unknown"` when unnamed), or clears it
/// when the effect is absent or empty. Every other event sets its stream's
/// record: the new state, the error (only for failure states; the
/// detail's, else a plain message when there is no detail), the attempt
/// count and the event's time.
pub open spec fn spec_apply_status(w: WorkerRecordView, e: StatusEventView) -> WorkerRecordView {
    match e.kind {
        StatusKind::WorkerState => WorkerRecordView {
            state: match e.state { Some(s) => Some(s), None => w.state },
            reason: e.reason,
            pipeline_hash: match e.pipeline_hash { Some(h) => Some(h), None => w.pipeline_hash },
            ..w
        },
        StatusKind::WorkerDegraded => {
            let c = match e.component { Some(c) => c, None => "unknown"@ };
            let down = match e.effect { Some(x) => x.len() > 0, None => false };
            WorkerRecordView {
                degraded: if down { seq_upsert(w.degraded, c, e.effect->0) } else { seq_remove_key(w.degraded, c) },
                ..w
            }
        },
        k => {
            let rec = StreamRecordView {
                state: spec_stream_state_after(k)->0,
                error: if spec_stream_state_after(k) != Some(StreamState::Streaming) {
                    match e.error { Some(x) => Some(x), None => if e.has_detail { None } else { e.message } }
                } else {
                    None
                },
                attempt: e.attempt,
                since_ms: match e.wall_clock_us { Some(us) => (us / 1000) as i64, None => e.now_ms },
            };
            let sid: u32 = match e.stream_id { Some(v) => v as u32, None => 0u32 };
            WorkerRecordView { streams: seq_upsert(w.streams, sid, rec), ..w }
        },
    }
}

/// A hello from a fresh connection: its state (when non-empty), pipeline
/// hash, version text, control protocol and control-peer flag; streams and
/// degradations are kept, as the worker replays them.
pub open spec fn spec_apply_hello(
    w: WorkerRecordView,
    state: Seq<char>,
    pipeline_hash: Option<Seq<char>>,
    version: Seq<char>,
    commit: Seq<char>,
    control: u32,
    control_peer: bool,
) -> WorkerRecordView {
    WorkerRecordView {
        state: if state.len() > 0 { Some(state) } else { w.state },
        pipeline_hash,
        zm_next_version: Some(spec_version_text(version, commit)),
        control_protocol: if control > 0 { Some(control) } else { None },
        control_peer,
        ..w
    }
}

fn copy_opt_string(s: &Option<String>) -> (r: Option<String>)
    ensures
        opt_chars(r) == opt_chars(*s),
{
    match s {
        Some(x) => Some(x.clone()),
        None => None,
    }
}

fn owned_text(s: &str) -> (r: String)
    ensures
        r@ == s@,
{
    let mut out = String::new();
    push_str(&mut out, s);
    assert(Seq::<char>::empty() + s@ =~= s@);
    out
}

impl WorkerRecord {
    /// A worker nothing is known of yet.
    pub fn new() -> (r: Self)
        ensures
            r@ == (WorkerRecordView {
                state: None,
                reason: None,
                pipeline_hash: None,
                zm_next_version: None,
                control_protocol: None,
                control_peer: false,
                streams: seq![],
                degraded: seq![],
            }),
    {
        let r = WorkerRecord {
            state: None,
            reason: None,
            pipeline_hash: None,
            zm_next_version: None,
            control_protocol: None,
            control_peer: false,
            streams: Vec::new(),
            degraded: Vec::new(),
        };
        assert(r@.streams =~= Seq::<(u32, StreamRecordView)>::empty());
        assert(r@.degraded =~= Seq::<(Seq<char>, Seq<char>)>::empty());
        r
    }

    fn set_stream(&mut self, sid: u32, rec: StreamRecord)
        ensures
            final(self)@ == (WorkerRecordView { streams: seq_upsert(old(self)@.streams, sid, rec@), ..old(self)@ }),
    {
        let ghost vs = self@.streams;
        let mut i: usize = 0;
        while i < self.streams.len() && self.streams[i].0 != sid
            invariant
                i <= self.streams@.len(),
                vs == self.streams@.map_values(|p: (u32, StreamRecord)| (p.0, p.1@)),
                forall|j: int| 0 <= j < i ==> vs[j].0 != sid,
            decreases self.streams.len() - i,
        {
            i = i + 1;
        }
        proof {
            lemma_key_index(vs, sid, i as int);
        }
        if i < self.streams.len() {
            self.streams.set(i, (sid, rec));
        } else {
            self.streams.push((sid, rec));
        }
        assert(self@.streams =~= seq_upsert(vs, sid, rec@));
    }

    fn find_component(&self, c: &str) -> (r: usize)
        ensures
            r <= self.degraded@.len(),
            key_index(self@.degraded, c@) == (if r == self.degraded@.len() { -1 } else { r as int }),
    {
        let ghost vs = self@.degraded;
        let mut i: usize = 0;
        while i < self.degraded.len() && !str_equal(self.degraded[i].0.as_str(), c)
            invariant
                i <= self.degraded@.len(),
                vs == self.degraded@.map_values(|p: (String, String)| (p.0@, p.1@)),
                forall|j: int| 0 <= j < i ==> vs[j].0 != c@,
            decreases self.degraded.len() - i,
        {
            i = i + 1;
        }
        proof {
            lemma_key_index(vs, c@, i as int);
        }
        i
    }

    fn set_degraded(&mut self, c: String, effect: String)
        ensures
            final(self)@ == (WorkerRecordView { degraded: seq_upsert(old(self)@.degraded, c@, effect@), ..old(self)@ }),
    {
        let ghost vs = self@.degraded;
        let i = self.find_component(c.as_str());
        let ghost cv = c@;
        let ghost ev = effect@;
        if i < self.degraded.len() {
            self.degraded.set(i, (c, effect));
        } else {
            self.degraded.push((c, effect));
        }
        assert(self@.degraded =~= seq_upsert(vs, cv, ev));
    }

    fn clear_degraded(&mut self, c: &str)
        ensures
            final(self)@ == (WorkerRecordView { degraded: seq_remove_key(old(self)@.degraded, c@), ..old(self)@ }),
    {
        let ghost vs = self@.degraded;
        let i = self.find_component(c);
        if i < self.degraded.len() {
            let _ = self.degraded.remove(i);
        }
        assert(self@.degraded =~= seq_remove_key(vs, c@));
    }

    /// Fold a status event in (see [`spec_apply_status`]).
    pub fn apply(&mut self, e: &StatusEvent)
        ensures
            final(self)@ == spec_apply_status(old(self)@, e@),
    {
        match e.kind {
            StatusKind::WorkerState => {
                let prev = self.state.take();
                self.state = next_worker_state(copy_opt_string(&e.state), prev);
                self.reason = copy_opt_string(&e.reason);
                if let Some(h) = &e.pipeline_hash {
                    self.pipeline_hash = Some(h.clone());
                }
            },
            StatusKind::WorkerDegraded => {
                match degraded_update(copy_opt_string(&e.component), copy_opt_string(&e.effect)) {
                    DegradedUpdate::Down { component, effect } => self.set_degraded(component, effect),
                    DegradedUpdate::Recovered { component } => self.clear_degraded(component.as_str()),
                }
            },
            k => {
                let state = match k.stream_state() {
                    Some(s) => s,
                    None => StreamState::Streaming,
                };
                let error = if k.keeps_error() {
                    status_error(copy_opt_string(&e.error), copy_opt_string(&e.message), e.has_detail)
                } else {
                    None
                };
                let rec = StreamRecord {
                    state,
                    error,
                    attempt: e.attempt,
                    since_ms: status_time_ms(e.wall_clock_us, e.now_ms),
                };
                self.set_stream(event_stream_id(e.stream_id), rec);
            },
        }
    }

    /// Record a hello (see [`spec_apply_hello`]).
    pub fn apply_hello(&mut self, state: &str, pipeline_hash: Option<String>, version: &str, commit: &str, control: u32, control_peer: bool)
        ensures
            final(self)@ == spec_apply_hello(old(self)@, state@, opt_chars(pipeline_hash), version@, commit@, control, control_peer),
    {
        if state.unicode_len() > 0 {
            self.state = Some(owned_text(state));
        }
        self.pipeline_hash = pipeline_hash;
        self.zm_next_version = Some(version_text(version, commit));
        self.control_protocol = control_protocol(control);
        self.control_peer = control_peer;
    }

    /// The connection closed: the state is unknown until the next hello,
    /// and the worker is no control peer; everything else is kept.
    pub fn apply_disconnect(&mut self)
        ensures
            final(self)@ == (WorkerRecordView { state: None, control_peer: false, ..old(self)@ }),
    {
        self.state = None;
        self.control_peer = false;
    }
}

proof fn lemma_key_index_first<K, V>(s: Seq<(K, V)>, k: K)
    ensures
        key_index(s, k) >= 0 ==> forall|j: int| 0 <= j < key_index(s, k) ==> s[j].0 != k,
        key_index(s, k) < 0 ==> forall|j: int| 0 <= j < s.len() ==> s[j].0 != k,
    decreases s.len(),
{
    if s.len() > 0 && s[0].0 != k {
        let t = s.drop_first();
        lemma_key_index_first(t, k);
        lemma_key_index_range(s, k);
        assert forall|j: int| 0 <= j < key_index(s, k) implies s[j].0 != k by {
            if j > 0 {
                assert(s[j] == t[j - 1]);
            }
        }
        assert forall|j: int| 0 <= j < s.len() && key_index(s, k) < 0 implies s[j].0 != k by {
            if j > 0 {
                assert(s[j] == t[j - 1]);
            }
        }
    }
}

/// Setting an entry makes it the one found under its key.
pub proof fn lemma_upsert_then_find<K, V>(s: Seq<(K, V)>, k: K, v: V)
    ensures
        key_index(seq_upsert(s, k, v), k) >= 0,
        seq_upsert(s, k, v)[key_index(seq_upsert(s, k, v), k)] == (k, v),
{
    lemma_key_index_first(s, k);
    lemma_key_index_range(s, k);
    let i = key_index(s, k);
    let s2 = seq_upsert(s, k, v);
    if i < 0 {
        assert forall|j: int| 0 <= j < s.len() implies s2[j].0 != k by {
            assert(s2[j] == s[j]);
        }
        lemma_key_index(s2, k, s.len() as int);
    } else {
        assert forall|j: int| 0 <= j < i implies s2[j].0 != k by {
            assert(s2[j] == s[j]);
        }
        lemma_key_index(s2, k, i);
    }
}

/// A stream's record is the last one set: after a per-stream event,
/// looking the event's stream up in the record finds the new state and
/// time.
pub proof fn lemma_stream_record_is_latest(w: WorkerRecordView, e: StatusEventView)
    requires
        e.kind != StatusKind::WorkerState,
        e.kind != StatusKind::WorkerDegraded,
    ensures
        ({
            let w2 = spec_apply_status(w, e);
            let sid: u32 = match e.stream_id { Some(v) => v as u32, None => 0u32 };
            let i = key_index(w2.streams, sid);
            &&& 0 <= i
            &&& w2.streams[i].1.state == spec_stream_state_after(e.kind)->0
            &&& w2.streams[i].1.since_ms == (match e.wall_clock_us { Some(us) => (us / 1000) as i64, None => e.now_ms })
        }),
{
    let sid: u32 = match e.stream_id { Some(v) => v as u32, None => 0u32 };
    let w2 = spec_apply_status(w, e);
    let rec = StreamRecordView {
        state: spec_stream_state_after(e.kind)->0,
        error: if spec_stream_state_after(e.kind) != Some(StreamState::Streaming) {
            match e.error { Some(x) => Some(x), None => if e.has_detail { None } else { e.message } }
        } else {
            None
        },
        attempt: e.attempt,
        since_ms: match e.wall_clock_us { Some(us) => (us / 1000) as i64, None => e.now_ms },
    };
    assert(w2.streams == seq_upsert(w.streams, sid, rec));
    lemma_upsert_then_find(w.streams, sid, rec);
}

/// A degraded component recorded down is found with its effect, and one
/// that recovered is no longer found.
pub proof fn lemma_degraded_set_or_cleared(w: WorkerRecordView, e: StatusEventView)
    requires
        e.kind == StatusKind::WorkerDegraded,
    ensures
        ({
            let w2 = spec_apply_status(w, e);
            let c = match e.component { Some(c) => c, None => "unknown"@ };
            let i = key_index(w2.degraded, c);
            &&& (e.effect matches Some(x) && x.len() > 0) ==> 0 <= i && w2.degraded[i] == (c, e.effect->0)
        }),
{
    let c = match e.component { Some(c) => c, None => "unknown"@ };
    if e.effect matches Some(x) && x.len() > 0 {
        lemma_upsert_then_find(w.degraded, c, e.effect->0);
    }
}

} // verus!
