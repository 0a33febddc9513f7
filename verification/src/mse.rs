//! MSE (Media Source Extensions) live streaming.
//!
//! A viewer's WebSocket receives fMP4 fragments cut from the monitor's FIFO
//! packets. This module holds the per-session segmenting: it feeds each
//! packet to a segmenter, turns completed segments into [`MseSegment`]s and
//! keeps the session's counters. Sessions are registered and their
//! segments delivered by the caller.

use vstd::prelude::*;
use crate::fifo::{FifoPacket, PacketView};
use crate::segmenter::{
    initial_segmenter, spec_generate_init_segment, spec_process_nal, FMP4Segment,
    HlsSegmenter, InitSegment, InitView, SegmentView, SegmenterView,
};

verus! {

/// MSE session state.
#[derive(Debug, Clone, Copy, PartialEq, Eq, Structural)]
pub enum MseSessionState {
    /// Session created, waiting for its WebSocket.
    Pending,
    /// WebSocket connected, streaming.
    Active,
    /// Session closed.
    Closed,
}

impl MseSessionState {
    /// The state's name as reported to clients (lower case).
    pub fn as_str(&self) -> (r: &'static str)
        ensures
            r@ == (match *self {
                MseSessionState::Pending => "pending"@,
                MseSessionState::Active => "active"@,
                MseSessionState::Closed => "closed"@,
            }),
    {
        match self {
            MseSessionState::Pending => "pending",
            MseSessionState::Active => "active",
            MseSessionState::Closed => "closed",
        }
    }
}

/// An MSE segment for WebSocket transmission.
#[derive(Debug, Clone)]
pub struct MseSegment {
    /// Segment sequence number.
    pub sequence: u64,
    /// Segment data (fMP4 fragment).
    pub data: Vec<u8>,
    /// Duration in milliseconds.
    pub duration_ms: u32,
    /// Whether this starts with a keyframe.
    pub is_keyframe: bool,
    /// Timestamp in microseconds.
    pub timestamp_us: u64,
}

/// MSE live streaming errors.
#[derive(Debug, Clone, PartialEq, Eq)]
pub enum MseLiveError {
    SessionNotFound(String),
    MaxSessionsReached,
    InitNotReady,
}

/// Configuration for MSE live streaming.
#[derive(Debug, Clone, Copy, PartialEq, Eq, Structural)]
pub struct MseLiveConfig {
    /// Target segment duration in milliseconds (smaller = lower latency).
    pub segment_duration_ms: u32,
    /// Maximum number of active sessions.
    pub max_sessions: usize,
    /// Channel buffer size for segments.
    pub buffer_size: usize,
}

impl Default for MseLiveConfig {
    /// 500 ms segments, at most 100 sessions, 32 buffered segments.
    fn default() -> (r: Self)
        ensures
            r.segment_duration_ms == 500,
            r.max_sessions == 100,
            r.buffer_size == 32,
    {
        MseLiveConfig { segment_duration_ms: 500, max_sessions: 100, buffer_size: 32 }
    }
}

/// A new session is admitted only while fewer than `max_sessions` exist.
pub fn admit_session(active_sessions: usize, config: &MseLiveConfig) -> (r: Result<(), MseLiveError>)
    ensures
        r is Ok <==> active_sessions < config.max_sessions,
        r is Err ==> r == Err::<(), MseLiveError>(MseLiveError::MaxSessionsReached),
{
    if active_sessions >= config.max_sessions {
        Err(MseLiveError::MaxSessionsReached)
    } else {
        Ok(())
    }
}

/// The value of an [`MseSegment`].
pub struct MseSegmentView {
    pub sequence: u64,
    pub data: Seq<u8>,
    pub duration_ms: u32,
    pub is_keyframe: bool,
    pub timestamp_us: u64,
}

impl View for MseSegment {
    type V = MseSegmentView;

    open spec fn view(&self) -> MseSegmentView {
        MseSegmentView {
            sequence: self.sequence,
            data: self.data@,
            duration_ms: self.duration_ms,
            is_keyframe: self.is_keyframe,
            timestamp_us: self.timestamp_us,
        }
    }
}

/// The MSE form of a segment: its duration in whole milliseconds (cut to
/// 32 bits) and its start time converted from the 90 kHz timescale to
/// microseconds (cut to 64 bits).
pub open spec fn spec_mse_segment(s: SegmentView) -> MseSegmentView {
    MseSegmentView {
        sequence: s.sequence,
        data: s.data,
        duration_ms: (s.duration_us / 1000) as u32,
        is_keyframe: s.is_keyframe,
        timestamp_us: (s.timestamp * 1_000_000 / 90000) as u64,
    }
}

/// Convert a completed segment (see [`spec_mse_segment`]).
pub fn to_mse_segment(s: FMP4Segment) -> (r: MseSegment)
    ensures
        r@ == spec_mse_segment(s@),
{
    let ts: u128 = (s.timestamp as u128) * 1_000_000 / 90000;
    MseSegment {
        sequence: s.sequence,
        data: s.data,
        duration_ms: (s.duration_us / 1000) as u32,
        is_keyframe: s.is_keyframe,
        timestamp_us: ts as u64,
    }
}

/// The segmenting state of one MSE session.
pub struct MseStream {
    segmenter: HlsSegmenter,
    init_segment: Option<InitSegment>,
    segments_sent: u64,
    bytes_sent: u64,
}

/// The value of an [`MseStream`].
pub struct MseStreamView {
    pub segmenter: SegmenterView,
    pub init: Option<InitView>,
    pub segments_sent: u64,
    pub bytes_sent: u64,
}

impl View for MseStream {
    type V = MseStreamView;

    closed spec fn view(&self) -> MseStreamView {
        MseStreamView {
            segmenter: self.segmenter@,
            init: match self.init_segment {
                Some(i) => Some(i@),
                None => None,
            },
            segments_sent: self.segments_sent,
            bytes_sent: self.bytes_sent,
        }
    }
}

/// `a + b`, stopping at the largest `u64`.
pub open spec fn sat_add(a: u64, b: int) -> u64 {
    if a + b <= u64::MAX { (a + b) as u64 } else { u64::MAX }
}

/// One packet fed to an MSE session.
///
/// Before the first segment the segmenter takes the packet's codec. A
/// packet with a negative timestamp is dropped. Otherwise it goes to the
/// segmenter; a completed segment is counted (segments and bytes) and
/// handed out. While the session has no init segment it tries to make one.
pub open spec fn spec_mse_process(s: MseStreamView, p: PacketView) -> (MseStreamView, Option<MseSegmentView>) {
    let seg0 = if s.segmenter.sequence == 0 {
        SegmenterView { codec: p.codec, ..s.segmenter }
    } else {
        s.segmenter
    };
    if p.timestamp_us < 0 {
        (MseStreamView { segmenter: seg0, ..s }, None)
    } else {
        let (seg1, r) = spec_process_nal(seg0, p.data, p.timestamp_us as u64, p.is_keyframe);
        let (sent, bytes) = match r {
            Some(x) => ((if s.segments_sent < u64::MAX { (s.segments_sent + 1) as u64 } else { s.segments_sent }),
                sat_add(s.bytes_sent, x.data.len() as int)),
            None => (s.segments_sent, s.bytes_sent),
        };
        let (seg2, init) = if s.init is None {
            spec_generate_init_segment(seg1)
        } else {
            (seg1, s.init)
        };
        (
            MseStreamView { segmenter: seg2, init, segments_sent: sent, bytes_sent: bytes },
            match r {
                Some(x) => Some(spec_mse_segment(x)),
                None => None,
            },
        )
    }
}

impl MseStream {
    /// A fresh session for `monitor_id` cutting segments of the given
    /// duration.
    pub fn new(monitor_id: u32, segment_duration_ms: u32) -> (r: Self)
        ensures
            r@ == (MseStreamView {
                segmenter: initial_segmenter(monitor_id, (segment_duration_ms as nat * 1000) as u64),
                init: None,
                segments_sent: 0,
                bytes_sent: 0,
            }),
    {
        let target_us: u64 = (segment_duration_ms as u64) * 1000;
        MseStream {
            segmenter: HlsSegmenter::new(monitor_id, target_us),
            init_segment: None,
            segments_sent: 0,
            bytes_sent: 0,
        }
    }

    /// Feed one packet (see [`spec_mse_process`]); returns the segment to
    /// send, if one was completed.
    pub fn process_packet(&mut self, packet: &FifoPacket) -> (r: Option<MseSegment>)
        ensures
            (final(self)@, match r {
                Some(m) => Some(m@),
                None => None::<MseSegmentView>,
            }) == spec_mse_process(old(self)@, packet@),
    {
        if self.segmenter.sequence() == 0 {
            self.segmenter.set_codec(packet.codec);
        }
        if packet.timestamp_us < 0 {
            return None;
        }
        let ts = packet.timestamp_us as u64;
        let out = match self.segmenter.process_nal(packet.data.as_slice(), ts, packet.is_keyframe) {
            Some(seg) => {
                if self.segments_sent < u64::MAX {
                    self.segments_sent = self.segments_sent + 1;
                }
                let len = seg.data.len() as u64;
                self.bytes_sent = if len <= u64::MAX - self.bytes_sent { self.bytes_sent + len } else { u64::MAX };
                Some(to_mse_segment(seg))
            },
            None => None,
        };
        if self.init_segment.is_none() {
            match self.segmenter.generate_init_segment() {
                Some(init) => {
                    self.init_segment = Some(init);
                },
                None => {},
            }
        }
        out
    }

    /// The init segment, once generated.
    pub fn get_init_segment(&self) -> (r: Option<&InitSegment>)
        ensures
            match r {
                Some(i) => self@.init == Some(i@),
                None => self@.init is None,
            },
    {
        match &self.init_segment {
            Some(i) => Some(i),
            None => None,
        }
    }

    /// Segments sent so far.
    pub fn segments_sent(&self) -> (r: u64)
        ensures
            r == self@.segments_sent,
    {
        self.segments_sent
    }

    /// Bytes sent so far.
    pub fn bytes_sent(&self) -> (r: u64)
        ensures
            r == self@.bytes_sent,
    {
        self.bytes_sent
    }
}

/// A session that has its init segment keeps it: later packets never
/// replace it.
pub proof fn lemma_mse_init_is_stable(s: MseStreamView, p: PacketView)
    requires
        s.init is Some,
    ensures
        spec_mse_process(s, p).0.init == s.init,
{
}

/// The counters of a session only grow, and every segment handed out is
/// counted.
pub proof fn lemma_mse_counters(s: MseStreamView, p: PacketView)
    ensures
        spec_mse_process(s, p).0.segments_sent >= s.segments_sent,
        spec_mse_process(s, p).0.bytes_sent >= s.bytes_sent,
        spec_mse_process(s, p).1 is Some && s.segments_sent < u64::MAX
            ==> spec_mse_process(s, p).0.segments_sent == s.segments_sent + 1,
{
}

} // verus!
