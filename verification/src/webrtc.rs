//! WebRTC live streaming logic: access-unit assembly for the RTP payloader,
//! the audio codecs a track can carry, session states and configuration,
//! and the SDP tweaks applied to an offer.

use vstd::prelude::*;
use crate::config::WebRtcConfig;
use crate::media::{
    h264_nal_type, h265_nal_type, slice_starts_picture, spec_h264_nal_type, spec_h265_nal_type,
    spec_slice_starts_picture, VideoCodec, VideoPacket,
};
use crate::wire::{find_first, find_from, lemma_find_from_sound, occurs_at, put_slice};
use vstd::string::StringSliceAdditionalSpecFns;

verus! {

/// The NAL unit type, whether it is a VCL (slice) NAL, and whether it
/// delimits the start of a new access unit (parameter sets and AUD), per the
/// packet's codec; unknown is treated as H.264.
pub open spec fn spec_classify_nal(data: Seq<u8>, codec: VideoCodec) -> Option<(u8, bool, bool)> {
    match codec {
        VideoCodec::H265 => match spec_h265_nal_type(data) {
            Some(t) => Some((t, t <= 31, 32 <= t <= 35)),
            None => None,
        },
        _ => match spec_h264_nal_type(data) {
            Some(t) => Some((t, 1 <= t <= 5, 7 <= t <= 9)),
            None => None,
        },
    }
}

/// Per-NAL classification the assembler needs.
fn classify_nal(data: &[u8], codec: VideoCodec) -> (r: Option<(u8, bool, bool)>)
    ensures
        r == spec_classify_nal(data@, codec),
{
    match codec {
        VideoCodec::H265 => match h265_nal_type(data) {
            Some(t) => Some((t, t <= 31, 32 <= t && t <= 35)),
            None => None,
        },
        _ => match h264_nal_type(data) {
            Some(t) => Some((t, 1 <= t && t <= 5, 7 <= t && t <= 9)),
            None => None,
        },
    }
}

/// A complete access unit (one video frame) ready for RTP packetization.
pub struct AssembledAccessUnit {
    /// Annex B formatted data (may contain multiple NAL units with start codes)
    pub data: Vec<u8>,
    /// Timestamp in microseconds
    pub timestamp_us: i64,
    /// Whether this AU is a keyframe
    pub is_keyframe: bool,
}

/// The value of an access unit.
pub struct AccessUnitView {
    pub data: Seq<u8>,
    pub timestamp_us: i64,
    pub is_keyframe: bool,
}

impl View for AssembledAccessUnit {
    type V = AccessUnitView;

    open spec fn view(&self) -> AccessUnitView {
        AccessUnitView { data: self.data@, timestamp_us: self.timestamp_us, is_keyframe: self.is_keyframe }
    }
}

/// The view of an optional access unit.
pub open spec fn opt_au(a: Option<AssembledAccessUnit>) -> Option<AccessUnitView> {
    match a {
        Some(x) => Some(x@),
        None => None,
    }
}

/// The state of an access-unit assembler.
pub struct AssemblerView {
    /// Annex B data of the access unit being assembled.
    pub buf: Seq<u8>,
    /// Whether a VCL NAL is in it.
    pub has_vcl: bool,
    /// Timestamp of the most recent VCL NAL added.
    pub timestamp_us: i64,
    /// Whether it holds a keyframe.
    pub is_keyframe: bool,
    /// While set, assembled non-keyframe units are dropped.
    pub needs_keyframe: bool,
}

/// Emitting the buffered access unit (nothing when the buffer is empty).
pub open spec fn spec_flush_au(a: AssemblerView) -> (AssemblerView, Option<AccessUnitView>) {
    if a.buf.len() == 0 {
        (a, None)
    } else {
        (
            AssemblerView { buf: seq![], has_vcl: false, is_keyframe: false, ..a },
            Some(AccessUnitView { data: a.buf, timestamp_us: a.timestamp_us, is_keyframe: a.is_keyframe }),
        )
    }
}

/// Until the first keyframe unit passes, non-keyframe units are dropped.
pub open spec fn spec_filter_needs_keyframe(a: AssemblerView, au: Option<AccessUnitView>) -> (AssemblerView, Option<AccessUnitView>) {
    match au {
        Some(x) => if a.needs_keyframe && !x.is_keyframe {
            (a, None)
        } else {
            (AssemblerView { needs_keyframe: false, ..a }, Some(x))
        },
        None => (a, None),
    }
}

/// Feeding one NAL packet: parameter sets and AUDs, and the first slice of
/// a new picture, complete the buffered unit (once it holds a slice);
/// everything else joins it.
pub open spec fn spec_assembler_push(a: AssemblerView, data: Seq<u8>, codec: VideoCodec, timestamp_us: i64, is_keyframe: bool) -> (AssemblerView, Option<AccessUnitView>) {
    if data.len() == 0 {
        (a, None)
    } else {
        match spec_classify_nal(data, codec) {
            None => (AssemblerView { buf: a.buf + data, ..a }, None),
            Some((_, vcl, starts_new_au)) => if starts_new_au && a.has_vcl {
                let (a1, au) = spec_flush_au(a);
                spec_filter_needs_keyframe(AssemblerView { buf: a1.buf + data, ..a1 }, au)
            } else if vcl && a.has_vcl && spec_slice_starts_picture(data, codec) {
                let (a1, au) = spec_flush_au(a);
                spec_filter_needs_keyframe(
                    AssemblerView { buf: a1.buf + data, has_vcl: true, timestamp_us, is_keyframe, ..a1 },
                    au,
                )
            } else if vcl {
                (AssemblerView {
                    buf: a.buf + data,
                    has_vcl: true,
                    timestamp_us,
                    is_keyframe: a.is_keyframe || is_keyframe,
                    ..a
                }, None)
            } else {
                (AssemblerView { buf: a.buf + data, ..a }, None)
            },
        }
    }
}

/// Assembles individual NAL units into complete access units (frames), so
/// that every NAL of one picture reaches the RTP payloader in one sample
/// (one RTP timestamp, one trailing marker bit).
pub struct AccessUnitAssembler {
    buf: Vec<u8>,
    has_vcl: bool,
    timestamp_us: i64,
    is_keyframe: bool,
    needs_keyframe: bool,
}

impl View for AccessUnitAssembler {
    type V = AssemblerView;

    closed spec fn view(&self) -> AssemblerView {
        AssemblerView {
            buf: self.buf@,
            has_vcl: self.has_vcl,
            timestamp_us: self.timestamp_us,
            is_keyframe: self.is_keyframe,
            needs_keyframe: self.needs_keyframe,
        }
    }
}

/// A buffered slice means buffered bytes.
pub open spec fn assembler_wf(a: AssemblerView) -> bool {
    a.has_vcl ==> a.buf.len() > 0
}

/// The state of a new assembler.
pub open spec fn initial_assembler() -> AssemblerView {
    AssemblerView { buf: seq![], has_vcl: false, timestamp_us: 0, is_keyframe: false, needs_keyframe: true }
}

impl AccessUnitAssembler {
    /// A new assembler, waiting for a keyframe.
    pub fn new() -> (r: Self)
        ensures
            r@ == initial_assembler(),
    {
        let r = AccessUnitAssembler { buf: Vec::new(), has_vcl: false, timestamp_us: 0, is_keyframe: false, needs_keyframe: true };
        assert(r@.buf =~= Seq::<u8>::empty());
        r
    }

    fn flush(&mut self) -> (r: Option<AssembledAccessUnit>)
        ensures
            (final(self)@, opt_au(r)) == spec_flush_au(old(self)@),
    {
        if self.buf.len() == 0 {
            return None;
        }
        let mut data: Vec<u8> = Vec::new();
        std::mem::swap(&mut data, &mut self.buf);
        let au = AssembledAccessUnit { data, timestamp_us: self.timestamp_us, is_keyframe: self.is_keyframe };
        self.has_vcl = false;
        self.is_keyframe = false;
        assert(self.buf@ =~= Seq::<u8>::empty());
        Some(au)
    }

    fn filter_needs_keyframe(&mut self, au: Option<AssembledAccessUnit>) -> (r: Option<AssembledAccessUnit>)
        ensures
            (final(self)@, opt_au(r)) == spec_filter_needs_keyframe(old(self)@, opt_au(au)),
    {
        match au {
            Some(x) => {
                if self.needs_keyframe && !x.is_keyframe {
                    None
                } else {
                    self.needs_keyframe = false;
                    Some(x)
                }
            },
            None => None,
        }
    }

    /// Feed a NAL unit (VideoPacket) into the assembler.
    ///
    /// Returns `Some(assembled_au)` when a complete access unit is ready to
    /// be sent to the WebRTC track. The returned bytes are Annex B formatted
    /// (start codes included), suitable for the H.264/H.265 payloader.
    pub fn push(&mut self, packet: &VideoPacket) -> (r: Option<AssembledAccessUnit>)
        ensures
            (final(self)@, opt_au(r)) == spec_assembler_push(old(self)@, packet.data@, packet.codec, packet.timestamp_us, packet.is_keyframe),
    {
        if packet.data.len() == 0 {
            return None;
        }
        let data = packet.data.as_slice();
        let (vcl, starts_new_au) = match classify_nal(data, packet.codec) {
            Some((_, v, s)) => (v, s),
            None => {
                put_slice(&mut self.buf, data);
                return None;
            },
        };
        if starts_new_au && self.has_vcl {
            let au = self.flush();
            put_slice(&mut self.buf, data);
            return self.filter_needs_keyframe(au);
        }
        if vcl && self.has_vcl && slice_starts_picture(data, packet.codec) {
            let au = self.flush();
            put_slice(&mut self.buf, data);
            self.has_vcl = true;
            self.timestamp_us = packet.timestamp_us;
            self.is_keyframe = packet.is_keyframe;
            return self.filter_needs_keyframe(au);
        }
        put_slice(&mut self.buf, data);
        if vcl {
            self.has_vcl = true;
            self.timestamp_us = packet.timestamp_us;
            if packet.is_keyframe {
                self.is_keyframe = true;
            }
        }
        None
    }

    /// Mark the assembler as having received a keyframe externally.
    ///
    /// Call this after injecting a cached keyframe (SPS+PPS+IDR) into the
    /// WebRTC track so that subsequent P-frames are not dropped.
    pub fn clear_needs_keyframe(&mut self)
        ensures
            final(self)@ == (AssemblerView { needs_keyframe: false, ..old(self)@ }),
    {
        self.needs_keyframe = false;
    }
}

/// A non-empty packet holding a VCL NAL (a coded slice).
pub open spec fn is_vcl_packet(data: Seq<u8>, codec: VideoCodec) -> bool {
    data.len() > 0 && match spec_classify_nal(data, codec) {
        Some((_, vcl, _)) => vcl,
        None => false,
    }
}

/// Every emitted access unit carries the timestamp of the last VCL packet
/// that joined it. A pushed VCL slice (H.264 types 1..=5, H.265 types
/// 0..=31) sets the assembler's timestamp to its own; any other packet
/// leaves it as it was; and a unit emitted by a push holds at least one
/// slice and carries the assembler's timestamp from before that push.
pub proof fn lemma_unit_timestamp_is_last_slice(a: AssemblerView, data: Seq<u8>, codec: VideoCodec, ts: i64, key: bool)
    ensures
        ({
            let (a2, out) = spec_assembler_push(a, data, codec, ts, key);
            &&& is_vcl_packet(data, codec) ==> a2.timestamp_us == ts
            &&& !is_vcl_packet(data, codec) ==> a2.timestamp_us == a.timestamp_us
            &&& out matches Some(au) ==> au.timestamp_us == a.timestamp_us && a.has_vcl
        }),
        codec == VideoCodec::H264 ==> (is_vcl_packet(data, codec) <==> (data.len() > 0
            && (spec_h264_nal_type(data) matches Some(t) && 1 <= t <= 5))),
        codec == VideoCodec::H265 ==> (is_vcl_packet(data, codec) <==> (data.len() > 0
            && (spec_h265_nal_type(data) matches Some(t) && t <= 31))),
{
}

/// Until a keyframe unit has been emitted, every unit the assembler emits is
/// a keyframe: a stream always opens with SPS+PPS+IDR.
pub proof fn lemma_first_emitted_unit_is_keyframe(a: AssemblerView, data: Seq<u8>, codec: VideoCodec, ts: i64, key: bool)
    requires
        a.needs_keyframe,
    ensures
        spec_assembler_push(a, data, codec, ts, key).1 matches Some(au) ==> au.is_keyframe,
        spec_assembler_push(a, data, codec, ts, key).1 is None ==> spec_assembler_push(a, data, codec, ts, key).0.needs_keyframe,
{
}

/// Once the keyframe gate is open, no byte is lost or reordered: the bytes
/// of an emitted unit followed by the new buffer are the old buffer
/// followed by the pushed NAL, and when nothing is emitted the NAL (if any)
/// is appended to the buffer.
pub proof fn lemma_bytes_preserved(a: AssemblerView, data: Seq<u8>, codec: VideoCodec, ts: i64, key: bool)
    requires
        !a.needs_keyframe,
        assembler_wf(a),
    ensures
        ({
            let (a2, out) = spec_assembler_push(a, data, codec, ts, key);
            &&& assembler_wf(a2)
            &&& !a2.needs_keyframe
            &&& match out {
                Some(au) => au.data + a2.buf == a.buf + data,
                None => a2.buf == a.buf + data,
            }
        }),
{
    let (a2, out) = spec_assembler_push(a, data, codec, ts, key);
    if data.len() == 0 {
        assert(a.buf + data =~= a.buf);
    } else {
        match out {
            Some(au) => {
                assert(au.data + a2.buf =~= a.buf + data);
            },
            None => {},
        }
    }
}

/// Every pushed packet's bytes end the assembler's buffer (unless the packet
/// is empty): a NAL is never split from the unit it was assigned to.
pub proof fn lemma_packet_ends_buffer(a: AssemblerView, data: Seq<u8>, codec: VideoCodec, ts: i64, key: bool)
    requires
        data.len() > 0,
    ensures
        ({
            let b = spec_assembler_push(a, data, codec, ts, key).0.buf;
            b.len() >= data.len() && b.subrange(b.len() - data.len(), b.len() as int) == data
        }),
{
    let b = spec_assembler_push(a, data, codec, ts, key).0.buf;
    assert(b.subrange(b.len() - data.len(), b.len() as int) =~= data);
}

/// `s` ends `t`.
pub open spec fn ends_with(t: Seq<u8>, s: Seq<u8>) -> bool {
    s.len() <= t.len() && t.subrange(t.len() - s.len(), t.len() as int) == s
}

/// The bytes of a run of packets `(data, codec, timestamp_us, is_keyframe)`,
/// in order.
pub open spec fn packets_bytes(ps: Seq<(Seq<u8>, VideoCodec, i64, bool)>) -> Seq<u8>
    decreases ps.len(),
{
    if ps.len() == 0 {
        seq![]
    } else {
        ps[0].0 + packets_bytes(ps.drop_first())
    }
}

/// The bytes of a run of emitted access units, in order.
pub open spec fn units_bytes(us: Seq<AccessUnitView>) -> Seq<u8>
    decreases us.len(),
{
    if us.len() == 0 {
        seq![]
    } else {
        us[0].data + units_bytes(us.drop_first())
    }
}

/// Pushing a run of packets: the final state and the units emitted, in
/// order.
pub open spec fn spec_assembler_run(a: AssemblerView, ps: Seq<(Seq<u8>, VideoCodec, i64, bool)>) -> (AssemblerView, Seq<AccessUnitView>)
    decreases ps.len(),
{
    if ps.len() == 0 {
        (a, seq![])
    } else {
        let (a1, o) = spec_assembler_push(a, ps[0].0, ps[0].1, ps[0].2, ps[0].3);
        let (a2, outs) = spec_assembler_run(a1, ps.drop_first());
        (a2, match o {
            Some(u) => seq![u] + outs,
            None => outs,
        })
    }
}

/// Over any run of pushes into an assembler still waiting for a keyframe
/// (a new one is), the first unit emitted, if any, is a keyframe: units
/// assembled before it are dropped.
pub proof fn lemma_run_opens_with_keyframe(a: AssemblerView, ps: Seq<(Seq<u8>, VideoCodec, i64, bool)>)
    requires
        a.needs_keyframe,
    ensures
        spec_assembler_run(a, ps).1.len() > 0 ==> spec_assembler_run(a, ps).1[0].is_keyframe,
    decreases ps.len(),
{
    if ps.len() > 0 {
        lemma_first_emitted_unit_is_keyframe(a, ps[0].0, ps[0].1, ps[0].2, ps[0].3);
        let (a1, o) = spec_assembler_push(a, ps[0].0, ps[0].1, ps[0].2, ps[0].3);
        if o is None {
            lemma_run_opens_with_keyframe(a1, ps.drop_first());
        }
    }
}

proof fn lemma_push_while_waiting(a: AssemblerView, data: Seq<u8>, codec: VideoCodec, ts: i64, key: bool)
    requires
        a.needs_keyframe,
        assembler_wf(a),
    ensures
        ({
            let (a2, out) = spec_assembler_push(a, data, codec, ts, key);
            &&& assembler_wf(a2)
            &&& match out {
                Some(au) => au.data + a2.buf == a.buf + data && !a2.needs_keyframe,
                None => ends_with(a.buf + data, a2.buf) && a2.needs_keyframe,
            }
        }),
{
    let (a2, out) = spec_assembler_push(a, data, codec, ts, key);
    let t = a.buf + data;
    if data.len() == 0 {
        assert(t =~= a.buf);
        assert(t.subrange(t.len() - a2.buf.len(), t.len() as int) =~= a2.buf);
    } else {
        match out {
            Some(au) => {
                assert(au.data + a2.buf =~= t);
            },
            None => {
                assert(t.subrange(t.len() - a2.buf.len(), t.len() as int) =~= a2.buf);
            },
        }
    }
}

proof fn lemma_units_bytes_cons(u: AccessUnitView, us: Seq<AccessUnitView>)
    ensures
        units_bytes(seq![u] + us) == u.data + units_bytes(us),
{
    assert((seq![u] + us).drop_first() =~= us);
}

/// No byte is lost, reordered or duplicated over a run of pushes: once the
/// keyframe gate is open, the emitted units followed by the buffer are
/// exactly the old buffer followed by every pushed packet; while it is
/// still closed (a new assembler), they are a suffix of it (the units
/// dropped before the first keyframe are all that is missing).
pub proof fn lemma_run_preserves_bytes(a: AssemblerView, ps: Seq<(Seq<u8>, VideoCodec, i64, bool)>)
    requires
        assembler_wf(a),
    ensures
        ({
            let (a2, outs) = spec_assembler_run(a, ps);
            &&& !a.needs_keyframe ==> units_bytes(outs) + a2.buf == a.buf + packets_bytes(ps)
            &&& a.needs_keyframe ==> ends_with(a.buf + packets_bytes(ps), units_bytes(outs) + a2.buf)
        }),
    decreases ps.len(),
{
    let (a2, outs) = spec_assembler_run(a, ps);
    if ps.len() == 0 {
        assert(a.buf + packets_bytes(ps) =~= a.buf);
        assert(units_bytes(outs) + a2.buf =~= a.buf);
        let t = a.buf;
        assert(t.subrange(0, t.len() as int) =~= t);
    } else {
        let d0 = ps[0].0;
        let rest = ps.drop_first();
        let (a1, o) = spec_assembler_push(a, d0, ps[0].1, ps[0].2, ps[0].3);
        let (a3, outs1) = spec_assembler_run(a1, rest);
        assert(a3 == a2);
        assert(a.buf + packets_bytes(ps) =~= (a.buf + d0) + packets_bytes(rest));
        if !a.needs_keyframe {
            lemma_bytes_preserved(a, d0, ps[0].1, ps[0].2, ps[0].3);
        } else {
            lemma_push_while_waiting(a, d0, ps[0].1, ps[0].2, ps[0].3);
        }
        lemma_run_preserves_bytes(a1, rest);
        match o {
            Some(u) => {
                lemma_units_bytes_cons(u, outs1);
                assert(outs == seq![u] + outs1);
                assert(units_bytes(outs) + a2.buf =~= u.data + (units_bytes(outs1) + a2.buf));
                assert(u.data + a1.buf == a.buf + d0);
                assert(!a1.needs_keyframe);
                assert(units_bytes(outs1) + a2.buf == a1.buf + packets_bytes(rest));
                assert(u.data + (a1.buf + packets_bytes(rest)) =~= (a.buf + d0) + packets_bytes(rest));
                let t = a.buf + packets_bytes(ps);
                assert(t.subrange(0, t.len() as int) =~= t);
            },
            None => {
                assert(outs == outs1);
                if !a.needs_keyframe {
                    assert(units_bytes(outs) + a2.buf == a1.buf + packets_bytes(rest));
                    assert(a1.buf + packets_bytes(rest) =~= (a.buf + d0) + packets_bytes(rest));
                } else {
                    let t = (a.buf + d0) + packets_bytes(rest);
                    let m = a1.buf + packets_bytes(rest);
                    let x = units_bytes(outs) + a2.buf;
                    assert(ends_with(a.buf + d0, a1.buf));
                    assert(t.subrange(t.len() - m.len(), t.len() as int) =~= m);
                    assert(ends_with(m, x));
                    assert(t.subrange(t.len() - x.len(), t.len() as int) =~= m.subrange(m.len() - x.len(), m.len() as int));
                }
            },
        }
    }
}

/// The audio codec a session's audio track carries on the wire.
///
/// WebRTC's mandatory audio codecs are Opus and G.711 — G.711 cameras pass
/// through untouched (PCMU/PCMA), AAC cameras are transcoded to Opus
/// upstream of the track.
#[derive(Debug, Clone, Copy, PartialEq, Eq, Structural)]
pub enum AudioTrackKind {
    /// G.711 µ-law pass-through (8 kHz mono, payload type 0)
    Pcmu,
    /// G.711 A-law pass-through (8 kHz mono, payload type 8)
    Pcma,
    /// Opus (48 kHz, payload type 111) — AAC sources transcoded upstream
    Opus,
}

/// The RTP codec parameters of an audio track.
pub struct AudioCodecParams {
    pub mime_type: &'static str,
    pub clock_rate: u32,
    pub channels: u16,
    pub sdp_fmtp_line: &'static str,
}

impl AudioTrackKind {
    /// The RTP codec parameters of the track: PCMU/PCMA at 8 kHz mono, Opus
    /// at 48 kHz stereo with in-band FEC.
    pub fn codec_params(&self) -> (r: AudioCodecParams)
        ensures
            r.mime_type@ == (match *self {
                AudioTrackKind::Pcmu => "audio/PCMU"@,
                AudioTrackKind::Pcma => "audio/PCMA"@,
                AudioTrackKind::Opus => "audio/opus"@,
            }),
            r.clock_rate == (match *self { AudioTrackKind::Opus => 48000u32, _ => 8000u32 }),
            r.channels == (match *self { AudioTrackKind::Opus => 2u16, _ => 1u16 }),
            r.sdp_fmtp_line@ == (match *self { AudioTrackKind::Opus => "minptime=10;useinbandfec=1"@, _ => ""@ }),
    {
        match self {
            AudioTrackKind::Pcmu => AudioCodecParams { mime_type: "audio/PCMU", clock_rate: 8000, channels: 1, sdp_fmtp_line: "" },
            AudioTrackKind::Pcma => AudioCodecParams { mime_type: "audio/PCMA", clock_rate: 8000, channels: 1, sdp_fmtp_line: "" },
            AudioTrackKind::Opus => AudioCodecParams {
                mime_type: "audio/opus",
                clock_rate: 48000,
                channels: 2,
                sdp_fmtp_line: "minptime=10;useinbandfec=1",
            },
        }
    }

    /// The static RTP payload type of the codec.
    pub fn payload_type(&self) -> (r: u8)
        ensures
            r == (match *self {
                AudioTrackKind::Pcmu => 0u8,
                AudioTrackKind::Pcma => 8u8,
                AudioTrackKind::Opus => 111u8,
            }),
    {
        match self {
            AudioTrackKind::Pcmu => 0,
            AudioTrackKind::Pcma => 8,
            AudioTrackKind::Opus => 111,
        }
    }
}

/// WebRTC session state.
#[derive(Debug, Clone, Copy, PartialEq, Eq, Structural)]
pub enum WebRtcSessionState {
    New,
    Connecting,
    Connected,
    Disconnected,
    Failed,
}

impl WebRtcSessionState {
    /// The lowercase name of the state, as it is serialized.
    pub fn as_str(&self) -> (r: &'static str)
        ensures
            r@ == (match *self {
                WebRtcSessionState::New => "new"@,
                WebRtcSessionState::Connecting => "connecting"@,
                WebRtcSessionState::Connected => "connected"@,
                WebRtcSessionState::Disconnected => "disconnected"@,
                WebRtcSessionState::Failed => "failed"@,
            }),
    {
        match self {
            WebRtcSessionState::New => "new",
            WebRtcSessionState::Connecting => "connecting",
            WebRtcSessionState::Connected => "connected",
            WebRtcSessionState::Disconnected => "disconnected",
            WebRtcSessionState::Failed => "failed",
        }
    }
}

/// WebRTC live streaming errors.
#[derive(Debug, Clone, PartialEq, Eq)]
pub enum WebRtcLiveError {
    SessionNotFound(String),
    SessionExists(u32),
    WebRtcError(String),
    UnsupportedCodec(String),
    NoVideoTrack,
}

/// Configuration for WebRTC live streaming.
#[derive(Debug, Clone, PartialEq, Eq)]
pub struct WebRtcLiveConfig {
    pub stun_servers: Vec<String>,
    pub turn_server: Option<String>,
    pub turn_username: Option<String>,
    pub turn_password: Option<String>,
    pub max_sessions: usize,
}

/// The view of a list of strings.
pub open spec fn strings_view(v: Seq<String>) -> Seq<Seq<char>> {
    v.map_values(|s: String| s@)
}

/// The view of an optional string.
pub open spec fn opt_str(s: Option<String>) -> Option<Seq<char>> {
    match s {
        Some(t) => Some(t@),
        None => None,
    }
}

fn str_owned(s: &str) -> (r: String)
    ensures
        r@ == s@,
{
    s.to_string()
}

fn copy_strings(v: &Vec<String>) -> (r: Vec<String>)
    ensures
        strings_view(r@) == strings_view(v@),
{
    let mut out: Vec<String> = Vec::new();
    let mut i: usize = 0;
    while i < v.len()
        invariant
            i <= v@.len(),
            out@.len() == i,
            forall|j: int| 0 <= j < i ==> out@[j]@ == v@[j]@,
        decreases v.len() - i,
    {
        let c = v[i].clone();
        out.push(c);
        i += 1;
    }
    assert(strings_view(out@) =~= strings_view(v@));
    out
}

impl Default for WebRtcLiveConfig {
    /// Google's public STUN servers, no TURN relay, 100 sessions.
    fn default() -> (r: Self)
        ensures
            strings_view(r.stun_servers@) == seq!["stun:stun.l.google.com:19302"@, "stun:stun1.l.google.com:19302"@],
            r.turn_server is None,
            r.turn_username is None,
            r.turn_password is None,
            r.max_sessions == 100,
    {
        let mut stun: Vec<String> = Vec::new();
        stun.push(str_owned("stun:stun.l.google.com:19302"));
        stun.push(str_owned("stun:stun1.l.google.com:19302"));
        assert(strings_view(stun@) =~= seq!["stun:stun.l.google.com:19302"@, "stun:stun1.l.google.com:19302"@]);
        WebRtcLiveConfig { stun_servers: stun, turn_server: None, turn_username: None, turn_password: None, max_sessions: 100 }
    }
}

impl WebRtcLiveConfig {
    /// Build a live-streaming config from the application's
    /// `[streaming.webrtc]` settings. An empty `stun_servers` list is
    /// honored verbatim (LAN-only deployments: host candidates alone let ICE
    /// gathering complete at once); a TURN relay is used only when enabled.
    pub fn from_webrtc_config(cfg: &WebRtcConfig) -> (r: Self)
        ensures
            strings_view(r.stun_servers@) == strings_view(cfg.stun_servers@),
            opt_str(r.turn_server) == (match cfg.turn { Some(t) => if t.enabled { Some(t.server@) } else { None }, None => None }),
            opt_str(r.turn_username) == (match cfg.turn { Some(t) => if t.enabled { Some(t.username@) } else { None }, None => None }),
            opt_str(r.turn_password) == (match cfg.turn { Some(t) => if t.enabled { Some(t.password@) } else { None }, None => None }),
            r.max_sessions == cfg.max_connections as usize,
    {
        let (turn_server, turn_username, turn_password) = match &cfg.turn {
            Some(turn) => {
                if turn.enabled {
                    (Some(turn.server.clone()), Some(turn.username.clone()), Some(turn.password.clone()))
                } else {
                    (None, None, None)
                }
            },
            None => (None, None, None),
        };
        WebRtcLiveConfig {
            stun_servers: copy_strings(&cfg.stun_servers),
            turn_server,
            turn_username,
            turn_password,
            max_sessions: cfg.max_connections as usize,
        }
    }
}

/// The H.264 `profile-level-id` values to advertise in the SDP offer:
/// Constrained Baseline 3.1 (`42e01f`, which every WebRTC implementation
/// accepts) and Constrained High 3.1 (`640c1f`). The server passes the
/// camera's NAL units through unchanged and browsers decode what arrives;
/// `level-asymmetry-allowed=1` lets the sent level exceed the negotiated one.
pub fn h264_offer_profile_level_ids() -> (r: Vec<String>)
    ensures
        strings_view(r@) == seq!["42e01f"@, "640c1f"@],
{
    let mut v: Vec<String> = Vec::new();
    v.push(str_owned("42e01f"));
    v.push(str_owned("640c1f"));
    assert(strings_view(v@) =~= seq!["42e01f"@, "640c1f"@]);
    v
}

/// A newline followed by `m=`: the start of a media description line.
pub open spec fn media_line_start() -> Seq<u8> {
    seq![0x0au8, 0x6d, 0x3d]
}

/// The session-level trickle attribute.
pub open spec fn trickle_attr() -> Seq<u8> {
    "a=ice-options:trickle".spec_bytes()
}

/// The SDP of an offer with `a=ice-options:trickle` added when absent:
/// inserted once, as a CRLF-terminated line right before the first media
/// (`m=`) line; an SDP that already has it, or has no media section, is
/// unchanged.
pub open spec fn spec_ensure_trickle(sdp: Seq<u8>) -> Seq<u8> {
    if find_from(sdp, trickle_attr(), 0) is Some {
        sdp
    } else {
        match find_from(sdp, media_line_start(), 0) {
            Some(nl) => sdp.subrange(0, nl + 1) + "a=ice-options:trickle\r\n".spec_bytes()
                + sdp.subrange(nl + 1, sdp.len() as int),
            None => sdp,
        }
    }
}

/// Add the session-level `a=ice-options:trickle` attribute to an offer's
/// SDP if absent (RFC 8838), immediately before the first media line; the
/// rest of the SDP (ICE credentials, DTLS fingerprint) is untouched.
pub fn ensure_trickle_ice_option(sdp: &[u8]) -> (r: Vec<u8>)
    ensures
        r@ == spec_ensure_trickle(sdp@),
{
    if find_first(sdp, "a=ice-options:trickle".as_bytes()).is_some() {
        return crate::wire::to_vec(sdp);
    }
    let media: [u8; 3] = [0x0a, 0x6d, 0x3d];
    assert(media@ =~= media_line_start());
    match find_first(sdp, media.as_slice()) {
        Some(nl) => {
            proof {
                lemma_find_from_sound(sdp@, media_line_start(), 0);
                assert(find_from(sdp@, media_line_start(), 0) == Some(nl as int));
                assert(occurs_at(sdp@, media_line_start(), nl as int));
                assert(nl + 3 <= sdp@.len());
                assert(sdp@.len() == sdp.len());
            }
            let mut out: Vec<u8> = Vec::new();
            put_slice(&mut out, &sdp[0..nl + 1]);
            put_slice(&mut out, "a=ice-options:trickle\r\n".as_bytes());
            put_slice(&mut out, &sdp[nl + 1..sdp.len()]);
            out
        },
        None => crate::wire::to_vec(sdp),
    }
}


/// The RTP parameters of a video codec the offer advertises.
#[derive(Debug, Clone, PartialEq, Eq)]
pub struct VideoCodecCapability {
    pub mime_type: String,
    pub clock_rate: u32,
    pub channels: u16,
    pub sdp_fmtp_line: String,
    /// Dynamic payload type (96 and up, one per capability).
    pub payload_type: u8,
}

/// The fmtp line of an advertised H.264 profile.
pub open spec fn h264_fmtp(profile_level_id: Seq<char>) -> Seq<char> {
    "level-asymmetry-allowed=1;packetization-mode=1;profile-level-id="@ + profile_level_id
}

/// The video codecs an offer advertises for a camera codec: for H.264 the
/// browser-universal profiles `42e01f` and `640c1f` (payload types 96 and
/// 97), for H.265 Main profile, Main tier, level 4 (payload type 96), all
/// at 90 kHz. An unknown codec cannot be offered (`None`).
pub open spec fn spec_video_capabilities(codec: VideoCodec) -> Option<Seq<(Seq<char>, u32, u16, Seq<char>, u8)>> {
    match codec {
        VideoCodec::H264 => Some(seq![
            ("video/H264"@, 90000u32, 0u16, h264_fmtp("42e01f"@), 96u8),
            ("video/H264"@, 90000u32, 0u16, h264_fmtp("640c1f"@), 97u8),
        ]),
        VideoCodec::H265 => Some(seq![
            ("video/H265"@, 90000u32, 0u16, "profile-id=1;tier-flag=0;level-id=120"@, 96u8),
        ]),
        VideoCodec::Unknown => None,
    }
}

/// The value of a capability.
pub open spec fn capability_view(c: VideoCodecCapability) -> (Seq<char>, u32, u16, Seq<char>, u8) {
    (c.mime_type@, c.clock_rate, c.channels, c.sdp_fmtp_line@, c.payload_type)
}

fn owned_str(s: &str) -> (r: String)
    ensures
        r@ == s@,
{
    let mut out = String::new();
    crate::text::push_str(&mut out, s);
    assert(Seq::<char>::empty() + s@ =~= s@);
    out
}

/// The video codecs an offer advertises (see [`spec_video_capabilities`]).
pub fn video_codec_capabilities(codec: VideoCodec) -> (r: Result<Vec<VideoCodecCapability>, WebRtcLiveError>)
    ensures
        match (r, spec_video_capabilities(codec)) {
            (Ok(v), Some(s)) => v@.map_values(|c: VideoCodecCapability| capability_view(c)) == s,
            (Err(e), None) => e matches WebRtcLiveError::UnsupportedCodec(m) && m@ == "Unknown"@,
            _ => false,
        },
{
    match codec {
        VideoCodec::H264 => {
            let mut v: Vec<VideoCodecCapability> = Vec::new();
            let mut variant: usize = 0;
            let ids = h264_offer_profile_level_ids();
            assert(strings_view(ids@).len() == ids@.len());
            while variant < 2
                invariant
                    variant <= 2,
                    ids@.len() == 2,
                    strings_view(ids@) == seq!["42e01f"@, "640c1f"@],
                    v@.len() == variant,
                    forall|i: int| 0 <= i < variant ==> capability_view(#[trigger] v@[i]) == (
                        "video/H264"@, 90000u32, 0u16, h264_fmtp(strings_view(ids@)[i]), (96 + i) as u8),
                decreases 2 - variant,
            {
                let mut fmtp = owned_str("level-asymmetry-allowed=1;packetization-mode=1;profile-level-id=");
                crate::text::push_str(&mut fmtp, ids[variant].as_str());
                assert(ids@[variant as int]@ == strings_view(ids@)[variant as int]);
                v.push(VideoCodecCapability {
                    mime_type: owned_str("video/H264"),
                    clock_rate: 90000,
                    channels: 0,
                    sdp_fmtp_line: fmtp,
                    payload_type: 96 + variant as u8,
                });
                variant = variant + 1;
            }
            assert(v@.map_values(|c: VideoCodecCapability| capability_view(c)) =~= seq![
                ("video/H264"@, 90000u32, 0u16, h264_fmtp("42e01f"@), 96u8),
                ("video/H264"@, 90000u32, 0u16, h264_fmtp("640c1f"@), 97u8),
            ]);
            Ok(v)
        },
        VideoCodec::H265 => {
            let mut v: Vec<VideoCodecCapability> = Vec::new();
            v.push(VideoCodecCapability {
                mime_type: owned_str("video/H265"),
                clock_rate: 90000,
                channels: 0,
                sdp_fmtp_line: owned_str("profile-id=1;tier-flag=0;level-id=120"),
                payload_type: 96,
            });
            assert(v@.map_values(|c: VideoCodecCapability| capability_view(c)) =~= seq![
                ("video/H265"@, 90000u32, 0u16, "profile-id=1;tier-flag=0;level-id=120"@, 96u8),
            ]);
            Ok(v)
        },
        VideoCodec::Unknown => Err(WebRtcLiveError::UnsupportedCodec(owned_str("Unknown"))),
    }
}

/// A session is admitted only while fewer than `max_sessions` exist.
pub fn admit_webrtc_session(active_sessions: usize, config: &WebRtcLiveConfig) -> (r: Result<(), WebRtcLiveError>)
    ensures
        r is Ok <==> active_sessions < config.max_sessions,
        r is Err ==> (r matches Err(WebRtcLiveError::WebRtcError(m)) && m@ == "Maximum sessions reached"@),
{
    if active_sessions >= config.max_sessions {
        Err(WebRtcLiveError::WebRtcError(owned_str("Maximum sessions reached")))
    } else {
        Ok(())
    }
}

/// An ICE server of the peer connection.
#[derive(Debug, Clone, PartialEq, Eq)]
pub struct IceServerSpec {
    pub url: String,
    pub username: String,
    pub credential: String,
}

/// The ICE servers of a session: each STUN server without credentials,
/// then the TURN relay, if configured, with its credentials (empty when
/// absent).
pub open spec fn spec_ice_servers(c: WebRtcLiveConfig) -> Seq<(Seq<char>, Seq<char>, Seq<char>)> {
    let stun = strings_view(c.stun_servers@).map_values(|u: Seq<char>| (u, Seq::<char>::empty(), Seq::<char>::empty()));
    match c.turn_server {
        Some(t) => stun.push((t@, match opt_str(c.turn_username) { Some(u) => u, None => Seq::empty() },
            match opt_str(c.turn_password) { Some(p) => p, None => Seq::empty() })),
        None => stun,
    }
}

/// The ICE servers of a session (see [`spec_ice_servers`]).
pub fn ice_servers(config: &WebRtcLiveConfig) -> (r: Vec<IceServerSpec>)
    ensures
        r@.map_values(|s: IceServerSpec| (s.url@, s.username@, s.credential@)) == spec_ice_servers(*config),
{
    let mut out: Vec<IceServerSpec> = Vec::new();
    let mut i: usize = 0;
    let ghost stun = strings_view(config.stun_servers@).map_values(|u: Seq<char>| (u, Seq::<char>::empty(), Seq::<char>::empty()));
    while i < config.stun_servers.len()
        invariant
            i <= config.stun_servers@.len(),
            stun == strings_view(config.stun_servers@).map_values(|u: Seq<char>| (u, Seq::<char>::empty(), Seq::<char>::empty())),
            out@.map_values(|s: IceServerSpec| (s.url@, s.username@, s.credential@)) == stun.take(i as int),
        decreases config.stun_servers.len() - i,
    {
        let url = config.stun_servers[i].clone();
        let username = String::new();
        let credential = String::new();
        assert(url@ == config.stun_servers@[i as int]@);
        assert(username@ =~= Seq::<char>::empty());
        assert(credential@ =~= Seq::<char>::empty());
        let ghost before = out@.map_values(|s: IceServerSpec| (s.url@, s.username@, s.credential@));
        out.push(IceServerSpec { url, username, credential });
        proof {
            assert(stun[i as int] == (config.stun_servers@[i as int]@, Seq::<char>::empty(), Seq::<char>::empty()));
            assert(stun.take(i as int + 1) =~= stun.take(i as int).push(stun[i as int]));
            assert(out@.map_values(|s: IceServerSpec| (s.url@, s.username@, s.credential@)) =~= stun.take(i as int + 1));
        }
        i = i + 1;
    }
    assert(stun.take(config.stun_servers@.len() as int) =~= stun);
    match &config.turn_server {
        Some(t) => {
            let username = match &config.turn_username { Some(u) => u.clone(), None => String::new() };
            let credential = match &config.turn_password { Some(p) => p.clone(), None => String::new() };
            let ghost before = out@.map_values(|s: IceServerSpec| (s.url@, s.username@, s.credential@));
            out.push(IceServerSpec { url: t.clone(), username, credential });
            assert(out@.map_values(|s: IceServerSpec| (s.url@, s.username@, s.credential@))
                =~= before.push((t@, username@, credential@)));
        },
        None => {},
    }
    out
}

} // verus!
