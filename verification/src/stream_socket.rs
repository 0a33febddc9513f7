//! Decoding of ZoneMinder's per-monitor stream socket.
//!
//! Each `zmc` process serves the monitor's compressed media on a unix
//! domain socket at `{PATH_SOCKS}/stream_{monitor_id}.sock`. On connect zmc
//! enqueues, in order: video HELLO, audio HELLO (when the monitor has
//! audio), cached KEYFRAME; so the stream topology is known before the first
//! media message arrives.
//!
//! The decoder turns the socket's byte stream into the pipeline's events:
//! one video packet per NAL unit (every NAL of an access unit sharing its
//! timestamp), one audio packet per frame (AAC re-framed as ADTS from the
//! HELLO's AudioSpecificConfig), parameter sets from the HELLO prepended to
//! keyframes that lack them, and timestamps normalized so a session starts
//! near zero (both streams share one base, keeping A/V in sync).

use vstd::prelude::*;
use std::collections::VecDeque;
use crate::media::{
    extradata_to_annexb_nals, h264_nal_type, h265_nal_type, nal_is_keyframe, spec_adts_frame, spec_asc_params,
    spec_extradata_nals, spec_h264_nal_type, spec_h265_nal_type, spec_nal_is_keyframe, spec_split_annexb_nals,
    split_annexb_nals, AdtsWrapper, AudioCodec, AudioPacket, AudioPacketView, VideoCodec, VideoPacket,
    VideoPacketView,
};
use crate::protocol::{
    audio_codec_from_id, parse_event, parse_header, parse_hello, parse_stats, spec_audio_codec_from_id, spec_message_type,
    spec_parse_event, spec_parse_header, spec_parse_hello, spec_stream_id, spec_video_codec_from_id, video_codec_from_id,
    CodecIds, Header, MessageType, MonitorEvent, MonitorEventView, ProtocolError, StreamId, FLAG_KEYFRAME,
    HEADER_SIZE,
};
use crate::wire::le64;
use crate::config::ZoneMinderConfig;
use crate::text::{decimal_chars, join_path, path_join, push_decimal, push_str};

verus! {

/// Errors from the stream-socket source layer.
#[derive(Debug, Clone, PartialEq, Eq)]
pub enum SourceError {
    NotFound { path: String },
    Io(String),
    Timeout { timeout_ms: u64 },
    Closed,
    Protocol(ProtocolError),
    NotConnected,
}

/// One decoded item from the socket, in wire order. Params events always
/// precede the media they describe.
#[derive(Debug)]
pub enum SocketEvent {
    /// Video stream parameters arrived (HELLO).
    VideoParams { codec: VideoCodec },
    /// Audio stream parameters arrived (HELLO).
    AudioParams { codec: AudioCodec },
    /// One video NAL unit.
    Video(VideoPacket),
    /// One audio frame.
    Audio(AudioPacket),
    /// A monitor lifecycle / analysis EVENT. Carries no media.
    MonitorEvent(MonitorEvent),
}

/// The value of a [`SocketEvent`].
pub enum SocketEventView {
    VideoParams { codec: VideoCodec },
    AudioParams { codec: AudioCodec },
    Video(VideoPacketView),
    Audio(AudioPacketView),
    MonitorEvent(MonitorEventView),
}

impl View for SocketEvent {
    type V = SocketEventView;

    open spec fn view(&self) -> SocketEventView {
        match self {
            SocketEvent::VideoParams { codec } => SocketEventView::VideoParams { codec: *codec },
            SocketEvent::AudioParams { codec } => SocketEventView::AudioParams { codec: *codec },
            SocketEvent::Video(p) => SocketEventView::Video(p@),
            SocketEvent::Audio(p) => SocketEventView::Audio(p@),
            SocketEvent::MonitorEvent(e) => SocketEventView::MonitorEvent(e@),
        }
    }
}

/// The state of a stream-socket decoder.
pub struct DecoderView {
    pub monitor_id: u32,
    pub ids: CodecIds,
    /// Raw socket bytes awaiting a complete message.
    pub buf: Seq<u8>,
    /// Events decoded, awaiting emission.
    pub pending: Seq<SocketEventView>,
    pub video_codec: VideoCodec,
    /// Parameter-set NALs from the video HELLO's extradata.
    pub video_extradata: Seq<Seq<u8>>,
    pub video_generation: Option<u32>,
    pub video_next_seq: Option<u32>,
    pub audio_codec: Option<AudioCodec>,
    /// ADTS parameters for re-framing AAC, when the HELLO carried a usable
    /// AudioSpecificConfig.
    pub audio_adts: Option<(u8, u8, u8)>,
    pub audio_next_seq: Option<u32>,
    /// First media pts on this connection.
    pub base_pts_us: Option<i64>,
    /// Cumulative drop count from the last STATS that reported new drops.
    pub last_reported_drops: u64,
}

/// The decoder state right after (re)connecting: all per-connection state
/// reset (zmc replays the HELLO handshake on every connection).
pub open spec fn connected_decoder(monitor_id: u32, ids: CodecIds) -> DecoderView {
    DecoderView {
        monitor_id,
        ids,
        buf: seq![],
        pending: seq![],
        video_codec: VideoCodec::Unknown,
        video_extradata: seq![],
        video_generation: None,
        video_next_seq: None,
        audio_codec: None,
        audio_adts: None,
        audio_next_seq: None,
        base_pts_us: None,
        last_reported_drops: 0,
    }
}

/// A HELLO: the stream's codec and parameters replace the old ones (a video
/// generation change also re-bases the timestamps), and a params event is
/// queued. A malformed HELLO is a protocol error.
pub open spec fn spec_handle_hello(s: DecoderView, stream: StreamId, header: Header, payload: Seq<u8>) -> Result<DecoderView, SourceError> {
    match spec_parse_hello(payload) {
        Err(e) => Err(SourceError::Protocol(e)),
        Ok(h) => if stream == StreamId::Video {
            let codec = spec_video_codec_from_id(h.codec_id, s.ids);
            let rebase = s.video_generation matches Some(g) && g != header.generation;
            Ok(DecoderView {
                video_codec: codec,
                video_extradata: spec_extradata_nals(h.extradata, codec),
                video_generation: Some(header.generation),
                video_next_seq: None,
                base_pts_us: if rebase { None } else { s.base_pts_us },
                pending: s.pending.push(SocketEventView::VideoParams { codec }),
                ..s
            })
        } else {
            let codec = spec_audio_codec_from_id(h.codec_id, s.ids);
            Ok(DecoderView {
                audio_codec: Some(codec),
                audio_adts: if codec == AudioCodec::Aac { spec_asc_params(h.extradata) } else { None },
                audio_next_seq: None,
                pending: s.pending.push(SocketEventView::AudioParams { codec }),
                ..s
            })
        },
    }
}

/// Whether an access unit's NALs include an SPS (the camera repeats
/// parameter sets in-band).
pub open spec fn au_has_parameter_sets(nals: Seq<Seq<u8>>, codec: VideoCodec) -> bool {
    exists|i: int| 0 <= i < nals.len() && match codec {
        VideoCodec::H264 => spec_h264_nal_type(#[trigger] nals[i]) == Some(7u8),
        VideoCodec::H265 => spec_h265_nal_type(nals[i]) == Some(33u8),
        VideoCodec::Unknown => false,
    }
}

/// A timestamp relative to `base`, clamped to `0..=i64::MAX`.
pub open spec fn relative_ts(pts: i64, base: i64) -> i64 {
    let d = pts - base;
    if d < 0 { 0 } else if d > i64::MAX { i64::MAX } else { d as i64 }
}

/// The video packet events of an access unit's NALs.
pub open spec fn video_events(monitor_id: u32, ts: i64, nals: Seq<Seq<u8>>, codec: VideoCodec) -> Seq<SocketEventView> {
    Seq::new(nals.len(), |i: int| SocketEventView::Video(VideoPacketView {
        monitor_id,
        timestamp_us: ts,
        data: nals[i],
        is_keyframe: spec_nal_is_keyframe(nals[i], codec),
        codec,
    }))
}

/// A MEDIA or KEYFRAME message: the stream's next expected sequence number
/// advances, the first media pts seeds the timestamp base, and the payload
/// becomes events — a video access unit one packet per NAL (keyframes
/// without in-band parameter sets get the HELLO's prepended), an audio frame
/// one packet (ADTS-framed for AAC; an oversized frame is dropped). Media of
/// an unknown video codec, or audio before its HELLO, yields nothing.
pub open spec fn spec_handle_media(s: DecoderView, stream: StreamId, header: Header, payload: Seq<u8>) -> DecoderView {
    let next = Some(((header.sequence as int + 1) % 0x1_0000_0000) as u32);
    let base = match s.base_pts_us { Some(b) => b, None => header.pts_us };
    let ts = relative_ts(header.pts_us, base);
    let s1 = if stream == StreamId::Video {
        DecoderView { video_next_seq: next, base_pts_us: Some(base), ..s }
    } else {
        DecoderView { audio_next_seq: next, base_pts_us: Some(base), ..s }
    };
    if stream == StreamId::Video {
        let codec = s.video_codec;
        let au = spec_split_annexb_nals(payload);
        if codec == VideoCodec::Unknown || au.len() == 0 {
            s1
        } else {
            let nals = if header.flags & FLAG_KEYFRAME != 0 && !au_has_parameter_sets(au, codec)
                && s.video_extradata.len() > 0 {
                s.video_extradata + au
            } else {
                au
            };
            DecoderView { pending: s1.pending + video_events(s.monitor_id, ts, nals, codec), ..s1 }
        }
    } else {
        match s.audio_codec {
            None => s1,
            Some(codec) => match s.audio_adts {
                Some(p) => if payload.len() + 7 >= 8192 {
                    s1
                } else {
                    DecoderView {
                        pending: s1.pending.push(SocketEventView::Audio(AudioPacketView {
                            monitor_id: s.monitor_id,
                            timestamp_us: ts,
                            data: spec_adts_frame(p, payload),
                            codec,
                        })),
                        ..s1
                    }
                },
                None => DecoderView {
                    pending: s1.pending.push(SocketEventView::Audio(AudioPacketView {
                        monitor_id: s.monitor_id,
                        timestamp_us: ts,
                        data: payload,
                        codec,
                    })),
                    ..s1
                },
            },
        }
    }
}

/// One complete message. Unknown message types and stream ids are skipped
/// (forward compatibility); an EVENT queues its decoded event (a malformed
/// one is skipped); media and HELLO on the monitor stream are skipped; a
/// STATS reporting new drops records them; BYE closes the stream.
pub open spec fn spec_handle_message(s: DecoderView, header: Header, payload: Seq<u8>) -> Result<DecoderView, SourceError> {
    match spec_message_type(header.msg_type) {
        None => Ok(s),
        Some(MessageType::Event) => match spec_parse_event(payload) {
            Ok(ev) => Ok(DecoderView { pending: s.pending.push(SocketEventView::MonitorEvent(ev)), ..s }),
            Err(_) => Ok(s),
        },
        Some(t) => match spec_stream_id(header.stream) {
            None => Ok(s),
            Some(StreamId::Monitor) => Ok(s),
            Some(sid) => match t {
                MessageType::Hello => spec_handle_hello(s, sid, header, payload),
                MessageType::Stats => if payload.len() >= 16 && le64(payload, 8) > s.last_reported_drops {
                    Ok(DecoderView { last_reported_drops: le64(payload, 8) as u64, ..s })
                } else {
                    Ok(s)
                },
                MessageType::Bye => Err(SourceError::Closed),
                _ => Ok(spec_handle_media(s, sid, header, payload)),
            },
        },
    }
}

/// Handling a message never touches the byte buffer or the identity.
pub proof fn lemma_handle_message_keeps_buf(s: DecoderView, header: Header, payload: Seq<u8>)
    ensures
        spec_handle_message(s, header, payload) matches Ok(s2) ==> s2.buf == s.buf && s2.monitor_id == s.monitor_id
            && s2.ids == s.ids,
{
}

/// The next event the socket bytes yield and the state after it: a queued
/// event first; otherwise the next complete message is consumed and
/// handled. `Ok(None)` means more bytes are needed; a bad header (the byte
/// stream can no longer be trusted) or a failed message is an error.
pub open spec fn spec_decoder_next(s: DecoderView) -> (DecoderView, Result<Option<SocketEventView>, SourceError>)
    decreases s.buf.len(), if s.pending.len() > 0 { 0int } else { 1int },
{
    if s.pending.len() > 0 {
        (DecoderView { pending: s.pending.drop_first(), ..s }, Ok(Some(s.pending[0])))
    } else if s.buf.len() < HEADER_SIZE {
        (s, Ok(None))
    } else {
        match spec_parse_header(s.buf.subrange(0, HEADER_SIZE as int)) {
            Err(e) => (s, Err(SourceError::Protocol(e))),
            Ok(h) => {
                let total = HEADER_SIZE + h.payload_len;
                if s.buf.len() < total {
                    (s, Ok(None))
                } else {
                    let s1 = DecoderView { buf: s.buf.subrange(total, s.buf.len() as int), ..s };
                    match spec_handle_message(s1, h, s.buf.subrange(HEADER_SIZE as int, total)) {
                        Err(e) => (s1, Err(e)),
                        Ok(s2) => {
                            proof {
                                lemma_handle_message_keeps_buf(s1, h, s.buf.subrange(HEADER_SIZE as int, total));
                            }
                            spec_decoder_next(s2)
                        },
                    }
                }
            },
        }
    }
}

/// Decoder for one monitor's stream socket: fed the bytes read from the
/// socket, it yields the events they encode.
pub struct StreamDecoder {
    monitor_id: u32,
    ids: CodecIds,
    buf: Vec<u8>,
    pending: VecDeque<SocketEvent>,
    video_codec: VideoCodec,
    video_extradata: Vec<Vec<u8>>,
    video_generation: Option<u32>,
    video_next_seq: Option<u32>,
    audio_codec: Option<AudioCodec>,
    audio_adts: Option<AdtsWrapper>,
    audio_next_seq: Option<u32>,
    base_pts_us: Option<i64>,
    last_reported_drops: u64,
}

/// The view of optional ADTS parameters.
pub open spec fn opt_adts(w: Option<AdtsWrapper>) -> Option<(u8, u8, u8)> {
    match w {
        Some(x) => Some(x.params()),
        None => None,
    }
}

impl View for StreamDecoder {
    type V = DecoderView;

    closed spec fn view(&self) -> DecoderView {
        DecoderView {
            monitor_id: self.monitor_id,
            ids: self.ids,
            buf: self.buf@,
            pending: self.pending@.map_values(|e: SocketEvent| e@),
            video_codec: self.video_codec,
            video_extradata: self.video_extradata@.map_values(|n: Vec<u8>| n@),
            video_generation: self.video_generation,
            video_next_seq: self.video_next_seq,
            audio_codec: self.audio_codec,
            audio_adts: opt_adts(self.audio_adts),
            audio_next_seq: self.audio_next_seq,
            base_pts_us: self.base_pts_us,
            last_reported_drops: self.last_reported_drops,
        }
    }
}

fn copy_nals(v: &Vec<Vec<u8>>) -> (r: Vec<Vec<u8>>)
    ensures
        r@.map_values(|n: Vec<u8>| n@) == v@.map_values(|n: Vec<u8>| n@),
{
    let mut out: Vec<Vec<u8>> = Vec::new();
    let mut i: usize = 0;
    while i < v.len()
        invariant
            i <= v@.len(),
            out@.len() == i,
            forall|j: int| 0 <= j < i ==> out@[j]@ == v@[j]@,
        decreases v.len() - i,
    {
        out.push(crate::wire::to_vec(v[i].as_slice()));
        i += 1;
    }
    assert(out@.map_values(|n: Vec<u8>| n@) =~= v@.map_values(|n: Vec<u8>| n@));
    out
}

fn has_parameter_sets(nals: &Vec<Vec<u8>>, codec: VideoCodec) -> (r: bool)
    ensures
        r == au_has_parameter_sets(nals@.map_values(|n: Vec<u8>| n@), codec),
{
    let ghost nv = nals@.map_values(|n: Vec<u8>| n@);
    let mut i: usize = 0;
    while i < nals.len()
        invariant
            i <= nals@.len(),
            nv == nals@.map_values(|n: Vec<u8>| n@),
            forall|j: int| 0 <= j < i ==> !(match codec {
                VideoCodec::H264 => spec_h264_nal_type(#[trigger] nv[j]) == Some(7u8),
                VideoCodec::H265 => spec_h265_nal_type(nv[j]) == Some(33u8),
                VideoCodec::Unknown => false,
            }),
        decreases nals.len() - i,
    {
        let hit = match codec {
            VideoCodec::H264 => h264_nal_type(nals[i].as_slice()) == Some(7u8),
            VideoCodec::H265 => h265_nal_type(nals[i].as_slice()) == Some(33u8),
            VideoCodec::Unknown => false,
        };
        assert(nv[i as int] == nals@[i as int]@);
        if hit {
            return true;
        }
        i += 1;
    }
    false
}

impl StreamDecoder {
    /// A decoder for a fresh connection.
    pub fn new(monitor_id: u32, ids: CodecIds) -> (r: Self)
        ensures
            r@ == connected_decoder(monitor_id, ids),
    {
        let r = StreamDecoder {
            monitor_id,
            ids,
            buf: Vec::new(),
            pending: VecDeque::new(),
            video_codec: VideoCodec::Unknown,
            video_extradata: Vec::new(),
            video_generation: None,
            video_next_seq: None,
            audio_codec: None,
            audio_adts: None,
            audio_next_seq: None,
            base_pts_us: None,
            last_reported_drops: 0,
        };
        assert(r@.buf =~= Seq::<u8>::empty());
        assert(r@.pending =~= Seq::<SocketEventView>::empty());
        assert(r@.video_extradata =~= Seq::<Seq<u8>>::empty());
        r
    }

    /// Reset all per-connection state, for a new connection.
    pub fn reset(&mut self)
        ensures
            final(self)@ == connected_decoder(old(self)@.monitor_id, old(self)@.ids),
    {
        *self = StreamDecoder::new(self.monitor_id, self.ids);
    }

    /// Append bytes read from the socket.
    pub fn feed(&mut self, data: &[u8])
        ensures
            final(self)@ == (DecoderView { buf: old(self)@.buf + data@, ..old(self)@ }),
    {
        crate::wire::put_slice(&mut self.buf, data);
    }

    fn push_event(&mut self, e: SocketEvent)
        ensures
            final(self)@ == (DecoderView { pending: old(self)@.pending.push(e@), ..old(self)@ }),
    {
        self.pending.push_back(e);
        assert(self@.pending =~= old(self)@.pending.push(e@));
    }

    fn handle_hello(&mut self, stream: StreamId, header: Header, payload: &[u8]) -> (r: Result<(), SourceError>)
        requires
            stream != StreamId::Monitor,
        ensures
            match r {
                Ok(_) => spec_handle_hello(old(self)@, stream, header, payload@) == Ok::<DecoderView, SourceError>(final(self)@),
                Err(e) => spec_handle_hello(old(self)@, stream, header, payload@) == Err::<DecoderView, SourceError>(e)
                    && final(self)@ == old(self)@,
            },
    {
        let hello = match parse_hello(payload) {
            Ok(h) => h,
            Err(e) => return Err(SourceError::Protocol(e)),
        };
        match stream {
            StreamId::Video => {
                let codec = video_codec_from_id(hello.codec_id, &self.ids);
                match self.video_generation {
                    Some(g) => {
                        if g != header.generation {
                            self.base_pts_us = None;
                        }
                    },
                    None => {},
                }
                self.video_codec = codec;
                self.video_extradata = extradata_to_annexb_nals(hello.extradata.as_slice(), codec);
                self.video_generation = Some(header.generation);
                self.video_next_seq = None;
                self.push_event(SocketEvent::VideoParams { codec });
            },
            _ => {
                let codec = audio_codec_from_id(hello.codec_id, &self.ids);
                let adts = if codec == AudioCodec::Aac { AdtsWrapper::from_asc(hello.extradata.as_slice()) } else { None };
                self.audio_codec = Some(codec);
                self.audio_adts = adts;
                self.audio_next_seq = None;
                self.push_event(SocketEvent::AudioParams { codec });
            },
        }
        Ok(())
    }

    fn handle_media(&mut self, stream: StreamId, header: Header, payload: Vec<u8>)
        requires
            stream != StreamId::Monitor,
        ensures
            final(self)@ == spec_handle_media(old(self)@, stream, header, payload@),
    {
        let next = if header.sequence < u32::MAX { header.sequence + 1 } else { 0 };
        assert(next == ((header.sequence as int + 1) % 0x1_0000_0000) as u32);
        match stream {
            StreamId::Video => { self.video_next_seq = Some(next); },
            _ => { self.audio_next_seq = Some(next); },
        }
        let base = match self.base_pts_us {
            Some(b) => b,
            None => {
                self.base_pts_us = Some(header.pts_us);
                header.pts_us
            },
        };
        let d = header.pts_us as i128 - base as i128;
        let ts: i64 = if d < 0 { 0 } else if d > i64::MAX as i128 { i64::MAX } else { d as i64 };
        let ghost s0 = old(self)@;
        let ghost s1 = if stream == StreamId::Video {
            DecoderView { video_next_seq: Some(next), base_pts_us: Some(base), ..s0 }
        } else {
            DecoderView { audio_next_seq: Some(next), base_pts_us: Some(base), ..s0 }
        };
        assert(self@ == s1);
        assert(ts == relative_ts(header.pts_us, base));
        match stream {
            StreamId::Video => {
                let codec = self.video_codec;
                if codec == VideoCodec::Unknown {
                    return;
                }
                let ghost pv = payload@;
                let au = split_annexb_nals(payload);
                if au.len() == 0 {
                    return;
                }
                let nals: Vec<Vec<u8>> = if header.flags & FLAG_KEYFRAME != 0 && !has_parameter_sets(&au, codec)
                    && self.video_extradata.len() > 0 {
                    let mut all = copy_nals(&self.video_extradata);
                    let ghost ev = all@.map_values(|n: Vec<u8>| n@);
                    let mut k: usize = 0;
                    while k < au.len()
                        invariant
                            k <= au@.len(),
                            all@.len() == ev.len() + k,
                            forall|j: int| 0 <= j < ev.len() ==> all@[j]@ == ev[j],
                            forall|j: int| 0 <= j < k ==> all@[ev.len() + j]@ == au@[j]@,
                        decreases au.len() - k,
                    {
                        all.push(crate::wire::to_vec(au[k].as_slice()));
                        k += 1;
                    }
                    assert(all@.map_values(|n: Vec<u8>| n@) =~= ev + au@.map_values(|n: Vec<u8>| n@));
                    all
                } else {
                    au
                };
                let ghost nv = nals@.map_values(|n: Vec<u8>| n@);
                assert(nv == (if header.flags & FLAG_KEYFRAME != 0 && !au_has_parameter_sets(spec_split_annexb_nals(pv), codec)
                    && s0.video_extradata.len() > 0 {
                    s0.video_extradata + spec_split_annexb_nals(pv)
                } else {
                    spec_split_annexb_nals(pv)
                }));
                let mut i: usize = 0;
                while i < nals.len()
                    invariant
                        i <= nals@.len(),
                        nv == nals@.map_values(|n: Vec<u8>| n@),
                        self@ == (DecoderView { pending: s1.pending + video_events(s0.monitor_id, ts, nv, codec).subrange(0, i as int), ..s1 }),
                        s1.monitor_id == s0.monitor_id,
                    decreases nals.len() - i,
                {
                    let data = crate::wire::to_vec(nals[i].as_slice());
                    let key = nal_is_keyframe(data.as_slice(), codec);
                    let pkt = VideoPacket { monitor_id: self.monitor_id, timestamp_us: ts, data, is_keyframe: key, codec };
                    self.push_event(SocketEvent::Video(pkt));
                    i += 1;
                    assert(self@.pending =~= s1.pending + video_events(s0.monitor_id, ts, nv, codec).subrange(0, i as int));
                }
                assert(video_events(s0.monitor_id, ts, nv, codec).subrange(0, nv.len() as int) =~= video_events(s0.monitor_id, ts, nv, codec));
            },
            _ => {
                let codec = match self.audio_codec {
                    Some(c) => c,
                    None => return,
                };
                let data = match &self.audio_adts {
                    Some(w) => match w.wrap(payload.as_slice()) {
                        Some(framed) => framed,
                        None => return,
                    },
                    None => payload,
                };
                self.push_event(SocketEvent::Audio(AudioPacket { monitor_id: self.monitor_id, timestamp_us: ts, data, codec }));
            },
        }
    }
}

impl StreamDecoder {
    /// Decode one wire message into zero or more pending events.
    fn handle_message(&mut self, header: Header, payload: Vec<u8>) -> (r: Result<(), SourceError>)
        ensures
            match r {
                Ok(_) => spec_handle_message(old(self)@, header, payload@) == Ok::<DecoderView, SourceError>(final(self)@),
                Err(e) => spec_handle_message(old(self)@, header, payload@) == Err::<DecoderView, SourceError>(e)
                    && final(self)@ == old(self)@,
            },
    {
        let msg_type = match MessageType::from_u8(header.msg_type) {
            Some(t) => t,
            None => return Ok(()),
        };
        if msg_type == MessageType::Event {
            match parse_event(payload.as_slice()) {
                Ok(ev) => self.push_event(SocketEvent::MonitorEvent(ev)),
                Err(_) => {},
            }
            return Ok(());
        }
        let stream_id = match StreamId::from_u8(header.stream) {
            Some(sid) => sid,
            None => return Ok(()),
        };
        if stream_id == StreamId::Monitor {
            return Ok(());
        }
        match msg_type {
            MessageType::Hello => self.handle_hello(stream_id, header, payload.as_slice()),
            MessageType::Stats => {
                match parse_stats(payload.as_slice()) {
                    Ok((_sent, dropped)) => {
                        if dropped > self.last_reported_drops {
                            self.last_reported_drops = dropped;
                        }
                    },
                    Err(_) => {},
                }
                Ok(())
            },
            MessageType::Bye => Err(SourceError::Closed),
            _ => {
                self.handle_media(stream_id, header, payload);
                Ok(())
            },
        }
    }

    /// The next event, `Ok(None)` when more bytes are needed, or the error
    /// that makes the byte stream unusable (reconnect).
    pub fn next_event(&mut self) -> (r: Result<Option<SocketEvent>, SourceError>)
        ensures
            (final(self)@, match r {
                Ok(Some(e)) => Ok(Some(e@)),
                Ok(None) => Ok(None),
                Err(e) => Err(e),
            }) == spec_decoder_next(old(self)@),
    {
        loop
            invariant
                spec_decoder_next(old(self)@) == spec_decoder_next(self@),
            decreases self@.buf.len(),
        {
            let ghost v0 = self@;
            match self.pending.pop_front() {
                Some(e) => {
                    assert(self@.pending =~= v0.pending.drop_first());
                    return Ok(Some(e));
                },
                None => {},
            }
            if self.buf.len() < HEADER_SIZE {
                return Ok(None);
            }
            let b = self.buf.as_slice();
            let arr: [u8; 24] = [
                b[0], b[1], b[2], b[3], b[4], b[5], b[6], b[7], b[8], b[9], b[10], b[11],
                b[12], b[13], b[14], b[15], b[16], b[17], b[18], b[19], b[20], b[21], b[22], b[23],
            ];
            assert(arr@ =~= v0.buf.subrange(0, 24));
            let header = match parse_header(&arr) {
                Ok(h) => h,
                Err(e) => return Err(SourceError::Protocol(e)),
            };
            if (self.buf.len() as u128) < HEADER_SIZE as u128 + header.payload_len as u128 {
                return Ok(None);
            }
            let total = HEADER_SIZE + header.payload_len;
            let payload = crate::media::slice_vec(self.buf.as_slice(), HEADER_SIZE, total);
            let rest = crate::media::slice_vec(self.buf.as_slice(), total, self.buf.len());
            self.buf = rest;
            proof {
                lemma_handle_message_keeps_buf(self@, header, payload@);
            }
            match self.handle_message(header, payload) {
                Ok(_) => {},
                Err(e) => return Err(e),
            }
        }
    }
}

/// The documented-convention socket path for a monitor:
/// `{socks_path}/stream_{monitor_id}.sock`.
pub open spec fn spec_stream_socket_path(socks_path: Seq<char>, monitor_id: u32) -> Seq<char> {
    path_join(socks_path, "stream_"@ + decimal_chars(monitor_id as nat) + ".sock"@)
}

/// The documented-convention socket path for a monitor.
pub fn stream_socket_path(config: &ZoneMinderConfig, monitor_id: u32) -> (r: String)
    ensures
        r@ == spec_stream_socket_path(config.socks_path@, monitor_id),
{
    let mut name = String::new();
    push_str(&mut name, "stream_");
    push_decimal(&mut name, monitor_id as u64);
    push_str(&mut name, ".sock");
    proof {
        assert(Seq::<char>::empty() + "stream_"@ =~= "stream_"@);
    }
    join_path(config.socks_path.as_str(), &name)
}

} // verus!
