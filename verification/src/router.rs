//! Source routing: the stream topology and keyframe cache each monitor's
//! reader maintains, reader health, router configuration and the WebRTC
//! startup profile.

use vstd::prelude::*;
use crate::config::ZoneMinderConfig;
use crate::media::{
    extract_profile_level_id, h264_nal_type, h265_nal_type, spec_h264_nal_type, spec_h265_nal_type,
    spec_profile_level_id, AudioCodec, VideoCodec, VideoPacket,
};
use crate::stream_socket::{SocketEvent, SocketEventView, SourceError};
use crate::wire::{put_slice, to_vec};

verus! {

/// Default broadcast channel capacity of a monitor source.
pub const DEFAULT_SOURCE_CAPACITY: usize = 100;

/// Health state of the stream-socket reader task. Subscribers watch it to
/// detect reader failures instead of hanging on a channel that never
/// closes.
#[derive(Debug, Clone, Copy, PartialEq, Eq, Structural)]
pub enum ReaderHealth {
    /// Reader not started yet
    Idle,
    /// Attempting to connect to the stream socket
    Opening,
    /// Socket connected and producing packets
    Active,
    /// Socket closed or errored, attempting reconnect
    Reconnecting,
    /// Reader task exited
    Stopped,
}

/// Stream topology learned from the socket's connect handshake. zmc sends
/// the per-stream HELLOs before any media, so once any media message has
/// arrived the topology is final for that connection.
#[derive(Debug, Clone, Copy, PartialEq, Eq, Structural)]
pub struct StreamInfo {
    pub video_codec: VideoCodec,
    /// `None` when the monitor has no audio stream.
    pub audio_codec: Option<AudioCodec>,
}

/// Cached keyframe data for fast WebRTC startup: `keyframe_au` is
/// SPS+PPS+IDR for H.264, VPS+SPS+PPS+IRAP for H.265 — everything a decoder
/// needs to initialise.
#[derive(Debug, Clone)]
pub struct CachedKeyframe {
    /// Raw SPS NAL (with Annex B start code)
    pub sps: Vec<u8>,
    /// Raw PPS NAL (with Annex B start code)
    pub pps: Vec<u8>,
    /// Parameter sets + keyframe concatenated (Annex B), ready to inject as
    /// one AU. For H.265 this starts with the VPS.
    pub keyframe_au: Vec<u8>,
    /// profile-level-id extracted from the H.264 SPS (e.g. "4d0033"); empty
    /// for H.265.
    pub profile_level_id: String,
    pub codec: VideoCodec,
    /// Timestamp in microseconds.
    pub timestamp_us: i64,
}

/// The value of a [`CachedKeyframe`].
pub struct CachedKeyframeView {
    pub sps: Seq<u8>,
    pub pps: Seq<u8>,
    pub keyframe_au: Seq<u8>,
    pub profile_level_id: Seq<char>,
    pub codec: VideoCodec,
    pub timestamp_us: i64,
}

impl View for CachedKeyframe {
    type V = CachedKeyframeView;

    open spec fn view(&self) -> CachedKeyframeView {
        CachedKeyframeView {
            sps: self.sps@,
            pps: self.pps@,
            keyframe_au: self.keyframe_au@,
            profile_level_id: self.profile_level_id@,
            codec: self.codec,
            timestamp_us: self.timestamp_us,
        }
    }
}

/// The parameter sets seen so far by a keyframe cache builder.
pub struct BuilderView {
    /// H.265 VPS (unused for H.264)
    pub vps: Option<Seq<u8>>,
    pub sps: Option<Seq<u8>>,
    pub pps: Option<Seq<u8>>,
    /// Extracted from the H.264 SPS.
    pub profile_level_id: Option<Seq<char>>,
}

/// Feeding one NAL packet to the builder: parameter sets are remembered; a
/// keyframe slice (H.264 IDR; H.265 IRAP, types 16..=21) yields a cache
/// entry once every required parameter set (H.264 SPS+PPS; H.265
/// VPS+SPS+PPS) has been seen. The entry's profile-level-id is the one
/// extracted from the H.264 SPS, empty when that SPS is too short to carry
/// one (and always empty for H.265).
pub open spec fn spec_builder_push(b: BuilderView, data: Seq<u8>, codec: VideoCodec, ts: i64) -> (BuilderView, Option<CachedKeyframeView>) {
    match codec {
        VideoCodec::H264 => match spec_h264_nal_type(data) {
            None => (b, None),
            Some(t) => if t == 7 {
                (BuilderView { sps: Some(data), profile_level_id: spec_profile_level_id(data), ..b }, None)
            } else if t == 8 {
                (BuilderView { pps: Some(data), ..b }, None)
            } else if t == 5 {
                match (b.sps, b.pps) {
                    (Some(sps), Some(pps)) => (b, Some(CachedKeyframeView {
                        sps,
                        pps,
                        keyframe_au: sps + pps + data,
                        profile_level_id: match b.profile_level_id { Some(plid) => plid, None => seq![] },
                        codec: VideoCodec::H264,
                        timestamp_us: ts,
                    })),
                    _ => (b, None),
                }
            } else {
                (b, None)
            },
        },
        VideoCodec::H265 => match spec_h265_nal_type(data) {
            None => (b, None),
            Some(t) => if t == 32 {
                (BuilderView { vps: Some(data), ..b }, None)
            } else if t == 33 {
                (BuilderView { sps: Some(data), ..b }, None)
            } else if t == 34 {
                (BuilderView { pps: Some(data), ..b }, None)
            } else if 16 <= t <= 21 {
                match (b.vps, b.sps, b.pps) {
                    (Some(vps), Some(sps), Some(pps)) => (b, Some(CachedKeyframeView {
                        sps,
                        pps,
                        keyframe_au: vps + sps + pps + data,
                        profile_level_id: seq![],
                        codec: VideoCodec::H265,
                        timestamp_us: ts,
                    })),
                    _ => (b, None),
                }
            } else {
                (b, None)
            },
        },
        VideoCodec::Unknown => (b, None),
    }
}

/// Tracks parameter sets across NALs so a complete [`CachedKeyframe`] can be
/// assembled the moment a keyframe slice arrives. Re-created on each socket
/// reconnect (fresh parameter sets are expected after a stream restart).
pub struct KeyframeCacheBuilder {
    vps: Option<Vec<u8>>,
    sps: Option<Vec<u8>>,
    pps: Option<Vec<u8>>,
    profile_level_id: Option<String>,
}

/// The view of an optional byte vector.
pub open spec fn opt_seq(v: Option<Vec<u8>>) -> Option<Seq<u8>> {
    match v {
        Some(x) => Some(x@),
        None => None,
    }
}

/// The view of an optional string.
pub open spec fn opt_chars(v: Option<String>) -> Option<Seq<char>> {
    match v {
        Some(x) => Some(x@),
        None => None,
    }
}

impl View for KeyframeCacheBuilder {
    type V = BuilderView;

    closed spec fn view(&self) -> BuilderView {
        BuilderView {
            vps: opt_seq(self.vps),
            sps: opt_seq(self.sps),
            pps: opt_seq(self.pps),
            profile_level_id: opt_chars(self.profile_level_id),
        }
    }
}

fn copy_string(s: &String) -> (r: String)
    ensures
        r@ == s@,
{
    s.clone()
}

impl Default for KeyframeCacheBuilder {
    /// A builder that has seen no parameter sets.
    fn default() -> (r: Self)
        ensures
            r@ == (BuilderView { vps: None, sps: None, pps: None, profile_level_id: None }),
    {
        KeyframeCacheBuilder::new()
    }
}

impl KeyframeCacheBuilder {
    /// A builder that has seen no parameter sets.
    pub fn new() -> (r: Self)
        ensures
            r@ == (BuilderView { vps: None, sps: None, pps: None, profile_level_id: None }),
    {
        KeyframeCacheBuilder { vps: None, sps: None, pps: None, profile_level_id: None }
    }

    /// Feed one NAL packet. Returns a complete cache entry when the packet
    /// is a keyframe slice and all required parameter sets have been seen.
    pub fn push(&mut self, packet: &VideoPacket) -> (r: Option<CachedKeyframe>)
        ensures
            (final(self)@, match r { Some(c) => Some(c@), None => None::<CachedKeyframeView> })
                == spec_builder_push(old(self)@, packet.data@, packet.codec, packet.timestamp_us),
    {
        let data = packet.data.as_slice();
        match packet.codec {
            VideoCodec::H264 => {
                let t = match h264_nal_type(data) {
                    Some(t) => t,
                    None => return None,
                };
                if t == 7 {
                    self.sps = Some(to_vec(data));
                    self.profile_level_id = extract_profile_level_id(data);
                    None
                } else if t == 8 {
                    self.pps = Some(to_vec(data));
                    None
                } else if t == 5 {
                    match (&self.sps, &self.pps) {
                        (Some(sps), Some(pps)) => {
                            let mut au: Vec<u8> = Vec::new();
                            put_slice(&mut au, sps.as_slice());
                            put_slice(&mut au, pps.as_slice());
                            put_slice(&mut au, data);
                            let plid = match &self.profile_level_id {
                                Some(p) => copy_string(p),
                                None => {
                                    let e = String::new();
                                    assert(e@ =~= Seq::<char>::empty());
                                    e
                                },
                            };
                            Some(CachedKeyframe {
                                sps: to_vec(sps.as_slice()),
                                pps: to_vec(pps.as_slice()),
                                keyframe_au: au,
                                profile_level_id: plid,
                                codec: VideoCodec::H264,
                                timestamp_us: packet.timestamp_us,
                            })
                        },
                        _ => None,
                    }
                } else {
                    None
                }
            },
            VideoCodec::H265 => {
                let t = match h265_nal_type(data) {
                    Some(t) => t,
                    None => return None,
                };
                if t == 32 {
                    self.vps = Some(to_vec(data));
                    None
                } else if t == 33 {
                    self.sps = Some(to_vec(data));
                    None
                } else if t == 34 {
                    self.pps = Some(to_vec(data));
                    None
                } else if 16 <= t && t <= 21 {
                    match (&self.vps, &self.sps, &self.pps) {
                        (Some(vps), Some(sps), Some(pps)) => {
                            let mut au: Vec<u8> = Vec::new();
                            put_slice(&mut au, vps.as_slice());
                            put_slice(&mut au, sps.as_slice());
                            put_slice(&mut au, pps.as_slice());
                            put_slice(&mut au, data);
                            let plid = String::new();
                            assert(plid@ =~= Seq::<char>::empty());
                            Some(CachedKeyframe {
                                sps: to_vec(sps.as_slice()),
                                pps: to_vec(pps.as_slice()),
                                keyframe_au: au,
                                profile_level_id: plid,
                                codec: VideoCodec::H265,
                                timestamp_us: packet.timestamp_us,
                            })
                        },
                        _ => None,
                    }
                } else {
                    None
                }
            },
            VideoCodec::Unknown => None,
        }
    }
}

/// A cached keyframe is always decodable in isolation: its access unit is
/// the parameter sets last seen (for H.265, the VPS first) followed by the
/// keyframe slice that triggered it, stamped with that slice's time.
pub proof fn lemma_cached_keyframe_self_contained(b: BuilderView, data: Seq<u8>, codec: VideoCodec, ts: i64)
    requires
        spec_builder_push(b, data, codec, ts).1 is Some,
    ensures
        ({
            let c = spec_builder_push(b, data, codec, ts).1->0;
            &&& c.codec == codec
            &&& c.timestamp_us == ts
            &&& c.sps == b.sps->0 && c.pps == b.pps->0
            &&& codec == VideoCodec::H264 ==> c.keyframe_au == c.sps + c.pps + data
                && spec_h264_nal_type(data) == Some(5u8)
            &&& codec == VideoCodec::H265 ==> c.keyframe_au == b.vps->0 + c.sps + c.pps + data
                && (spec_h265_nal_type(data) matches Some(t) && 16 <= t <= 21)
        }),
{
}

/// Router errors.
#[derive(Debug, Clone, PartialEq, Eq)]
pub enum RouterError {
    SourceNotAvailable(u32),
    SocketNotFound(u32),
    ReaderStartFailed(u32, String),
    SourceError(SourceError),
}

/// Configuration for the source router.
#[derive(Debug, Clone)]
pub struct RouterConfig {
    /// ZoneMinder stream-socket configuration
    pub zoneminder: ZoneMinderConfig,
    /// Broadcast channel capacity
    pub channel_capacity: usize,
    /// Whether to automatically start readers on subscription
    pub auto_start: bool,
    /// Maximum number of active sources
    pub max_active_sources: usize,
}

impl Default for RouterConfig {
    /// The default ZoneMinder layout, channels of 100 packets, readers
    /// started on demand, at most 50 sources.
    fn default() -> (r: Self)
        ensures
            r.channel_capacity == DEFAULT_SOURCE_CAPACITY,
            r.auto_start,
            r.max_active_sources == 50,
            r.zoneminder.socks_path@ == "/run/zm"@,
    {
        RouterConfig {
            zoneminder: ZoneMinderConfig::default(),
            channel_capacity: DEFAULT_SOURCE_CAPACITY,
            auto_start: true,
            max_active_sources: 50,
        }
    }
}

impl RouterConfig {
    /// A router configuration for the given ZoneMinder installation, with
    /// the other settings at their defaults.
    pub fn from_zoneminder(zm_config: ZoneMinderConfig) -> (r: Self)
        ensures
            r.zoneminder == zm_config,
            r.channel_capacity == DEFAULT_SOURCE_CAPACITY,
            r.auto_start,
            r.max_active_sources == 50,
    {
        RouterConfig { zoneminder: zm_config, channel_capacity: DEFAULT_SOURCE_CAPACITY, auto_start: true, max_active_sources: 50 }
    }
}

/// Statistics for a single source.
#[derive(Debug, Clone, PartialEq, Eq)]
pub struct SourceStats {
    pub monitor_id: u32,
    pub codec: VideoCodec,
    pub active: bool,
    pub video_subscribers: usize,
    pub audio_subscribers: usize,
    pub has_audio: bool,
    /// Audio packets read since the source was created
    pub audio_packets: u64,
}

/// Server-side WebRTC startup profile for a monitor's most recent session.
/// All `*_ms` are milliseconds from WS connect, so the phases nest:
/// `get_source_ms <= offer_ms <= ice_connected_ms <= connected_ms <= first_rtp_ms`.
#[derive(Debug, Clone, Copy, PartialEq, Eq, Structural)]
pub struct WebRtcStartupTiming {
    /// Reader was already hot at connect.
    pub warm_start: bool,
    /// connect → `get_source` returned.
    pub get_source_ms: Option<u64>,
    /// connect → SDP offer sent.
    pub offer_ms: Option<u64>,
    /// connect → ICE-connected (first usable candidate pair).
    pub ice_connected_ms: Option<u64>,
    /// connect → peer connection connected (ICE + DTLS complete).
    pub connected_ms: Option<u64>,
    /// connect → first video RTP written to the track.
    pub first_rtp_ms: Option<u64>,
}

impl Default for WebRtcStartupTiming {
    fn default() -> (r: Self)
        ensures
            r == (WebRtcStartupTiming {
                warm_start: false,
                get_source_ms: None,
                offer_ms: None,
                ice_connected_ms: None,
                connected_ms: None,
                first_rtp_ms: None,
            }),
    {
        WebRtcStartupTiming {
            warm_start: false,
            get_source_ms: None,
            offer_ms: None,
            ice_connected_ms: None,
            connected_ms: None,
            first_rtp_ms: None,
        }
    }
}

impl WebRtcStartupTiming {
    /// A fresh profile at offer time: whether the reader was hot and how
    /// long `get_source` and the offer took; later phases not yet reached.
    pub fn at_offer(warm_start: bool, get_source_ms: u64, offer_ms: u64) -> (r: Self)
        ensures
            r == (WebRtcStartupTiming {
                warm_start,
                get_source_ms: Some(get_source_ms),
                offer_ms: Some(offer_ms),
                ice_connected_ms: None,
                connected_ms: None,
                first_rtp_ms: None,
            }),
    {
        WebRtcStartupTiming {
            warm_start,
            get_source_ms: Some(get_source_ms),
            offer_ms: Some(offer_ms),
            ice_connected_ms: None,
            connected_ms: None,
            first_rtp_ms: None,
        }
    }

    /// Record ICE-connected; only the first per session counts.
    pub fn record_ice_connected(&mut self, ms: u64)
        ensures
            *final(self) == (WebRtcStartupTiming {
                ice_connected_ms: if old(self).ice_connected_ms is None { Some(ms) } else { old(self).ice_connected_ms },
                ..*old(self)
            }),
    {
        if self.ice_connected_ms.is_none() {
            self.ice_connected_ms = Some(ms);
        }
    }

    /// Record peer-connected; only the first per session counts.
    pub fn record_connected(&mut self, ms: u64)
        ensures
            *final(self) == (WebRtcStartupTiming {
                connected_ms: if old(self).connected_ms is None { Some(ms) } else { old(self).connected_ms },
                ..*old(self)
            }),
    {
        if self.connected_ms.is_none() {
            self.connected_ms = Some(ms);
        }
    }

    /// Record the first video RTP; only the first per session counts.
    pub fn record_first_rtp(&mut self, ms: u64)
        ensures
            *final(self) == (WebRtcStartupTiming {
                first_rtp_ms: if old(self).first_rtp_ms is None { Some(ms) } else { old(self).first_rtp_ms },
                ..*old(self)
            }),
    {
        if self.first_rtp_ms.is_none() {
            self.first_rtp_ms = Some(ms);
        }
    }
}

/// What a reader does after a failed connection attempt: wait five
/// reconnect delays when the socket does not exist (zmc not running yet),
/// one otherwise.
pub open spec fn spec_connect_retry_delay_ms(err: SourceError, reconnect_delay_ms: u64) -> u64 {
    match err {
        SourceError::NotFound { .. } => if reconnect_delay_ms <= u64::MAX / 5 { (reconnect_delay_ms * 5) as u64 } else { u64::MAX },
        _ => reconnect_delay_ms,
    }
}

/// The delay before retrying a failed connection attempt (saturating).
pub fn connect_retry_delay_ms(err: &SourceError, reconnect_delay_ms: u64) -> (r: u64)
    ensures
        r == spec_connect_retry_delay_ms(*err, reconnect_delay_ms),
{
    match err {
        SourceError::NotFound { .. } => if reconnect_delay_ms <= u64::MAX / 5 { reconnect_delay_ms * 5 } else { u64::MAX },
        _ => reconnect_delay_ms,
    }
}

/// How a reader reacts to a failed read.
#[derive(Debug, Clone, Copy, PartialEq, Eq, Structural)]
pub enum ReadErrorAction {
    /// Keep reading (a timeout: no media is flowing).
    KeepReading,
    /// Reconnect (zmc closed the stream).
    Reconnect,
    /// Wait one reconnect delay, then reconnect with fresh state.
    ReconnectAfterDelay,
}

/// The reaction to a read error: timeouts are expected on an idle camera,
/// a closed stream reconnects, anything else waits before reconnecting.
pub fn read_error_action(err: &SourceError) -> (r: ReadErrorAction)
    ensures
        r == (match *err {
            SourceError::Timeout { .. } => ReadErrorAction::KeepReading,
            SourceError::Closed => ReadErrorAction::Reconnect,
            _ => ReadErrorAction::ReconnectAfterDelay,
        }),
{
    match err {
        SourceError::Timeout { .. } => ReadErrorAction::KeepReading,
        SourceError::Closed => ReadErrorAction::Reconnect,
        _ => ReadErrorAction::ReconnectAfterDelay,
    }
}

/// The per-connection state of a reader: the topology learned from the
/// HELLOs, whether it has been announced, and the keyframe cache builder.
pub struct ConnectionView {
    pub video_codec: VideoCodec,
    pub audio_codec: Option<AudioCodec>,
    pub announced: bool,
    pub builder: BuilderView,
}

/// What the reader must do with one event.
pub struct EventActions {
    /// Set the source's video codec.
    pub set_codec: Option<VideoCodec>,
    /// Publish this stream topology.
    pub announce: Option<StreamInfo>,
    /// Publish this keyframe cache entry.
    pub cache: Option<CachedKeyframe>,
}

/// The value of [`EventActions`].
pub struct EventActionsView {
    pub set_codec: Option<VideoCodec>,
    pub announce: Option<StreamInfo>,
    pub cache: Option<CachedKeyframeView>,
}

impl View for EventActions {
    type V = EventActionsView;

    open spec fn view(&self) -> EventActionsView {
        EventActionsView {
            set_codec: self.set_codec,
            announce: self.announce,
            cache: match self.cache { Some(c) => Some(c@), None => None },
        }
    }
}

/// One event's effect on the connection state and what the reader must do:
/// HELLOs record the topology (an audio HELLO after the announcement
/// re-announces it); the first media packet announces the topology, which
/// zmc guarantees is complete by then; video packets feed the keyframe
/// cache.
pub open spec fn spec_on_event(c: ConnectionView, e: SocketEventView) -> (ConnectionView, EventActionsView) {
    let none = EventActionsView { set_codec: None, announce: None, cache: None };
    match e {
        SocketEventView::VideoParams { codec } => (
            ConnectionView { video_codec: codec, ..c },
            EventActionsView { set_codec: Some(codec), ..none },
        ),
        SocketEventView::AudioParams { codec } => {
            let c2 = ConnectionView { audio_codec: Some(codec), ..c };
            (c2, EventActionsView {
                announce: if c.announced { Some(StreamInfo { video_codec: c.video_codec, audio_codec: Some(codec) }) } else { None },
                ..none
            })
        },
        SocketEventView::Video(p) => {
            let (b2, cache) = spec_builder_push(c.builder, p.data, p.codec, p.timestamp_us);
            (
                ConnectionView { announced: true, builder: b2, ..c },
                EventActionsView {
                    announce: if !c.announced { Some(StreamInfo { video_codec: c.video_codec, audio_codec: c.audio_codec }) } else { None },
                    cache,
                    ..none
                },
            )
        },
        SocketEventView::Audio(_) => (
            ConnectionView { announced: true, ..c },
            EventActionsView {
                announce: if !c.announced { Some(StreamInfo { video_codec: c.video_codec, audio_codec: c.audio_codec }) } else { None },
                ..none
            },
        ),
        SocketEventView::MonitorEvent(_) => (c, none),
    }
}

/// The per-connection decisions of a stream-socket reader.
pub struct ReaderConnection {
    video_codec: VideoCodec,
    audio_codec: Option<AudioCodec>,
    announced: bool,
    builder: KeyframeCacheBuilder,
}

impl View for ReaderConnection {
    type V = ConnectionView;

    closed spec fn view(&self) -> ConnectionView {
        ConnectionView {
            video_codec: self.video_codec,
            audio_codec: self.audio_codec,
            announced: self.announced,
            builder: self.builder@,
        }
    }
}

impl ReaderConnection {
    /// The state of a fresh connection.
    pub fn new() -> (r: Self)
        ensures
            r@ == (ConnectionView {
                video_codec: VideoCodec::Unknown,
                audio_codec: None,
                announced: false,
                builder: BuilderView { vps: None, sps: None, pps: None, profile_level_id: None },
            }),
    {
        ReaderConnection { video_codec: VideoCodec::Unknown, audio_codec: None, announced: false, builder: KeyframeCacheBuilder::new() }
    }

    /// Decide what to do with one event.
    pub fn on_event(&mut self, e: &SocketEvent) -> (r: EventActions)
        ensures
            (final(self)@, r@) == spec_on_event(old(self)@, e@),
    {
        match e {
            SocketEvent::VideoParams { codec } => {
                self.video_codec = *codec;
                EventActions { set_codec: Some(*codec), announce: None, cache: None }
            },
            SocketEvent::AudioParams { codec } => {
                self.audio_codec = Some(*codec);
                let announce = if self.announced {
                    Some(StreamInfo { video_codec: self.video_codec, audio_codec: Some(*codec) })
                } else {
                    None
                };
                EventActions { set_codec: None, announce, cache: None }
            },
            SocketEvent::Video(p) => {
                let announce = if !self.announced {
                    Some(StreamInfo { video_codec: self.video_codec, audio_codec: self.audio_codec })
                } else {
                    None
                };
                self.announced = true;
                let cache = self.builder.push(p);
                EventActions { set_codec: None, announce, cache }
            },
            SocketEvent::Audio(_) => {
                let announce = if !self.announced {
                    Some(StreamInfo { video_codec: self.video_codec, audio_codec: self.audio_codec })
                } else {
                    None
                };
                self.announced = true;
                EventActions { set_codec: None, announce, cache: None }
            },
            SocketEvent::MonitorEvent(_) => EventActions { set_codec: None, announce: None, cache: None },
        }
    }
}

/// The topology is announced exactly once per connection before any
/// re-announcement, at the first media packet.
pub proof fn lemma_topology_announced_at_first_media(c: ConnectionView, e: SocketEventView)
    requires
        !c.announced,
    ensures
        (e is Video || e is Audio) ==> spec_on_event(c, e).1.announce
            == Some(StreamInfo { video_codec: c.video_codec, audio_codec: c.audio_codec }) && spec_on_event(c, e).0.announced,
        (e is VideoParams || e is AudioParams || e is MonitorEvent) ==> spec_on_event(c, e).1.announce is None
            && !spec_on_event(c, e).0.announced,
{
}

} // verus!
