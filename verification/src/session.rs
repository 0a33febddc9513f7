//! HLS sessions: the per-monitor state that turns FIFO packets into fMP4
//! segments and keeps the session's counters.
//!
//! The session's playlist, its storage on disk and the notification of
//! waiting clients are driven by the caller from what these functions
//! return.

use vstd::prelude::*;
use crate::fifo::{FifoPacket, PacketView};
use crate::media::{hex_byte, push_hex_byte};
use crate::segmenter::{
    initial_segmenter, spec_generate_init_segment, spec_process_nal, FMP4Segment, HlsSegmenter,
    InitSegment, InitView, SegmentView, SegmenterView,
};
use crate::storage::{StorageConfig, StorageError};
use crate::text::{decimal_chars, push_decimal, push_str};

verus! {

/// Session statistics.
#[derive(Debug, Clone, Copy, PartialEq, Eq, Structural)]
pub struct HlsSessionStats {
    pub monitor_id: u32,
    /// Time since the session started, in milliseconds.
    pub uptime_ms: u64,
    pub segment_count: u64,
    pub bytes_written: u64,
    pub viewer_count: usize,
    pub current_sequence: u64,
    pub has_init_segment: bool,
}

/// HLS session errors.
#[derive(Debug, Clone, PartialEq, Eq)]
pub enum HlsError {
    SessionExists(u32),
    SessionNotFound(u32),
    StorageError(StorageError),
    Timeout,
    InitNotReady,
}

/// The codec attribute of a master playlist for an H.264 stream whose SPS
/// (without start code) is `sps`: `avc1.` followed by the hex digits of
/// profile, constraint flags and level; none for an SPS shorter than four
/// bytes.
pub open spec fn spec_avc1_codec(sps: Seq<u8>) -> Option<Seq<char>> {
    if sps.len() < 4 {
        None
    } else {
        Some("avc1."@ + hex_byte(sps[1]) + hex_byte(sps[2]) + hex_byte(sps[3]))
    }
}

/// The `avc1.xxxxxx` codec attribute of an SPS (see [`spec_avc1_codec`]).
pub fn avc1_codec(sps: &[u8]) -> (r: Option<String>)
    ensures
        match r {
            Some(s) => spec_avc1_codec(sps@) == Some(s@),
            None => spec_avc1_codec(sps@) is None,
        },
{
    if sps.len() < 4 {
        return None;
    }
    let mut s = String::new();
    push_str(&mut s, "avc1.");
    push_hex_byte(&mut s, sps[1]);
    push_hex_byte(&mut s, sps[2]);
    push_hex_byte(&mut s, sps[3]);
    assert(s@ =~= "avc1."@ + hex_byte(sps@[1]) + hex_byte(sps@[2]) + hex_byte(sps@[3]));
    Some(s)
}

/// The base URL of a monitor's HLS session: `{base_url}/{monitor_id}/hls`.
pub open spec fn spec_session_base_url(base_url: Seq<char>, monitor_id: u32) -> Seq<char> {
    base_url + "/"@ + decimal_chars(monitor_id as nat) + "/hls"@
}

/// The base URL of a monitor's HLS session (see [`spec_session_base_url`]).
pub fn session_base_url(base_url: &str, monitor_id: u32) -> (r: String)
    ensures
        r@ == spec_session_base_url(base_url@, monitor_id),
{
    let mut s = String::new();
    push_str(&mut s, base_url);
    push_str(&mut s, "/");
    push_decimal(&mut s, monitor_id as u64);
    push_str(&mut s, "/hls");
    assert(s@ =~= spec_session_base_url(base_url@, monitor_id));
    s
}

/// Storage settings of an HLS session manager: segments are kept for the
/// retention time, and at most as many as fit in it.
pub fn storage_config_for(storage_path: String, retention_minutes: u32, segment_duration_seconds: u32) -> (r: StorageConfig)
    requires
        segment_duration_seconds > 0,
    ensures
        r.base_path == storage_path,
        r.retention_ms == retention_minutes as int * 60_000,
        r.cleanup_interval_ms == 60_000,
        r.max_segments_per_stream == if (retention_minutes as int * 60) / (segment_duration_seconds as int) <= usize::MAX {
            (retention_minutes as int * 60) / (segment_duration_seconds as int)
        } else {
            usize::MAX as int
        },
{
    let secs: u64 = retention_minutes as u64 * 60;
    let max: u64 = secs / (segment_duration_seconds as u64);
    StorageConfig {
        base_path: storage_path,
        retention_ms: secs * 1000,
        cleanup_interval_ms: 60_000,
        max_segments_per_stream: if max <= usize::MAX as u64 { max as usize } else { usize::MAX },
    }
}

/// The segmenting state of one HLS session.
pub struct HlsStream {
    segmenter: HlsSegmenter,
    segment_count: u64,
    bytes_written: u64,
    viewer_count: usize,
    codec: Option<String>,
}

/// The value of an [`HlsStream`].
pub struct HlsStreamView {
    pub segmenter: SegmenterView,
    pub segment_count: u64,
    pub bytes_written: u64,
    pub viewer_count: usize,
    /// The master playlist's codec attribute, once known.
    pub codec: Option<Seq<char>>,
}

impl View for HlsStream {
    type V = HlsStreamView;

    closed spec fn view(&self) -> HlsStreamView {
        HlsStreamView {
            segmenter: self.segmenter@,
            segment_count: self.segment_count,
            bytes_written: self.bytes_written,
            viewer_count: self.viewer_count,
            codec: match self.codec {
                Some(s) => Some(s@),
                None => None,
            },
        }
    }
}

/// One packet fed to an HLS session: before the first segment the
/// segmenter takes the packet's codec; a packet with a negative timestamp
/// is dropped; otherwise it goes to the segmenter.
pub open spec fn spec_hls_process(s: HlsStreamView, p: PacketView) -> (HlsStreamView, Option<SegmentView>) {
    let seg0 = if s.segmenter.sequence == 0 {
        SegmenterView { codec: p.codec, ..s.segmenter }
    } else {
        s.segmenter
    };
    if p.timestamp_us < 0 {
        (HlsStreamView { segmenter: seg0, ..s }, None)
    } else {
        let (seg1, r) = spec_process_nal(seg0, p.data, p.timestamp_us as u64, p.is_keyframe);
        (HlsStreamView { segmenter: seg1, ..s }, r)
    }
}

/// `a + b`, stopping at the largest `u64`.
pub open spec fn sat_add_u64(a: u64, b: int) -> u64 {
    if a + b <= u64::MAX { (a + b) as u64 } else { u64::MAX }
}

impl HlsStream {
    /// A fresh session for `monitor_id` with segments of the target
    /// duration.
    pub fn new(monitor_id: u32, target_duration_us: u64) -> (r: Self)
        ensures
            r@ == (HlsStreamView {
                segmenter: initial_segmenter(monitor_id, target_duration_us),
                segment_count: 0,
                bytes_written: 0,
                viewer_count: 0,
                codec: None,
            }),
    {
        HlsStream {
            segmenter: HlsSegmenter::new(monitor_id, target_duration_us),
            segment_count: 0,
            bytes_written: 0,
            viewer_count: 0,
            codec: None,
        }
    }

    /// Feed one packet (see [`spec_hls_process`]); returns the segment it
    /// completed, if any.
    pub fn process_packet(&mut self, packet: &FifoPacket) -> (r: Option<FMP4Segment>)
        ensures
            (final(self)@, match r {
                Some(x) => Some(x@),
                None => None::<SegmentView>,
            }) == spec_hls_process(old(self)@, packet@),
    {
        if self.segmenter.sequence() == 0 {
            self.segmenter.set_codec(packet.codec);
        }
        if packet.timestamp_us < 0 {
            return None;
        }
        self.segmenter.process_nal(packet.data.as_slice(), packet.timestamp_us as u64, packet.is_keyframe)
    }

    /// Count a completed segment.
    pub fn on_segment_complete(&mut self, segment: &FMP4Segment)
        ensures
            final(self)@ == (HlsStreamView {
                segment_count: sat_add_u64(old(self)@.segment_count, 1),
                bytes_written: sat_add_u64(old(self)@.bytes_written, segment.data@.len() as int),
                ..old(self)@
            }),
    {
        if self.segment_count < u64::MAX {
            self.segment_count = self.segment_count + 1;
        }
        let len = segment.data.len() as u64;
        self.bytes_written = if len <= u64::MAX - self.bytes_written { self.bytes_written + len } else { u64::MAX };
    }

    /// Generate the init segment if the segmenter is ready; the codec
    /// attribute is then taken from the stored SPS.
    pub fn generate_init_segment(&mut self) -> (r: Option<InitSegment>)
        ensures
            ({
                let (seg, init) = spec_generate_init_segment(old(self)@.segmenter);
                &&& (match r {
                    Some(i) => Some(i@),
                    None => None::<InitView>,
                }) == init
                &&& final(self)@.segmenter == seg
                &&& final(self)@.segment_count == old(self)@.segment_count
                &&& final(self)@.bytes_written == old(self)@.bytes_written
                &&& final(self)@.viewer_count == old(self)@.viewer_count
                &&& final(self)@.codec == if init is Some && seg.sps is Some && spec_avc1_codec(seg.sps->0) is Some {
                    spec_avc1_codec(seg.sps->0)
                } else {
                    old(self)@.codec
                }
            }),
    {
        let init = match self.segmenter.generate_init_segment() {
            Some(i) => i,
            None => return None,
        };
        match self.segmenter.sps() {
            Some(sps) => {
                match avc1_codec(sps) {
                    Some(c) => {
                        self.codec = Some(c);
                    },
                    None => {},
                }
            },
            None => {},
        }
        Some(init)
    }

    /// The cached init segment.
    pub fn get_init_segment(&self) -> (r: Option<&InitSegment>)
        ensures
            match r {
                Some(i) => self@.segmenter.init == Some(i@),
                None => self@.segmenter.init is None,
            },
    {
        self.segmenter.get_init_segment()
    }

    /// The master playlist's codec attribute, once known.
    pub fn codec(&self) -> (r: Option<&String>)
        ensures
            match r {
                Some(s) => self@.codec == Some(s@),
                None => self@.codec is None,
            },
    {
        match &self.codec {
            Some(s) => Some(s),
            None => None,
        }
    }

    /// One more viewer.
    pub fn add_viewer(&mut self)
        ensures
            final(self)@ == (HlsStreamView {
                viewer_count: if old(self)@.viewer_count < usize::MAX { (old(self)@.viewer_count + 1) as usize } else { old(self)@.viewer_count },
                ..old(self)@
            }),
    {
        if self.viewer_count < usize::MAX {
            self.viewer_count = self.viewer_count + 1;
        }
    }

    /// One viewer less (never below zero).
    pub fn remove_viewer(&mut self)
        ensures
            final(self)@ == (HlsStreamView {
                viewer_count: if old(self)@.viewer_count > 0 { (old(self)@.viewer_count - 1) as usize } else { 0usize },
                ..old(self)@
            }),
    {
        self.viewer_count = self.viewer_count.saturating_sub(1);
    }

    /// The session's statistics, given its uptime.
    pub fn stats(&self, uptime_ms: u64) -> (r: HlsSessionStats)
        ensures
            r == (HlsSessionStats {
                monitor_id: self@.segmenter.monitor_id,
                uptime_ms,
                segment_count: self@.segment_count,
                bytes_written: self@.bytes_written,
                viewer_count: self@.viewer_count,
                current_sequence: self@.segmenter.sequence,
                has_init_segment: self@.segmenter.init is Some,
            }),
    {
        HlsSessionStats {
            monitor_id: self.segmenter.monitor_id(),
            uptime_ms,
            segment_count: self.segment_count,
            bytes_written: self.bytes_written,
            viewer_count: self.viewer_count,
            current_sequence: self.segmenter.sequence(),
            has_init_segment: self.segmenter.get_init_segment().is_some(),
        }
    }
}

/// Viewers added and then removed leave the count where it was.
pub proof fn lemma_viewer_round_trip(n: usize)
    requires
        n < usize::MAX,
    ensures
        ({
            let up: usize = (n + 1) as usize;
            (if up > 0 { (up - 1) as usize } else { 0usize }) == n
        }),
{
}

} // verus!
