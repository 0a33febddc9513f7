//! fMP4 (fragmented MP4) segment generation for HLS.
//!
//! The segmenter turns a stream of Annex B NAL units (and optionally ADTS
//! AAC frames) into an initialization segment (ftyp + moov) and media
//! segments (moof + mdat). Its behaviour is specified as a state machine over
//! [`SegmenterView`]: each operation's effect is the spec function of the
//! same name applied to the state before the call.

use vstd::prelude::*;
use crate::fmp4::{
    build_init_segment, build_media_segment, init_segment_bytes, media_segment_bytes, opt_bytes, samples_view,
    audio_view, lemma_durations_reach_next_start, strictly_increasing_before, total_duration, AudioSample,
    AudioTrack, SampleView, SegmentSample,
};
use crate::h264::{parse_sps_dimensions, spec_sps_dimensions};
use crate::media::{
    leading_start_code_len, slice_starts_picture, spec_adts_parse, spec_asc_bytes, spec_slice_starts_picture,
    start_code_len, AdtsHeader, VideoCodec,
};
use crate::wire::to_vec;

verus! {

/// Timescale of the video track (90 kHz).
pub const VIDEO_TIMESCALE: u32 = 90000;

/// Video samples to accumulate before giving up the wait for audio
/// parameters and generating a video-only init segment (~4 s at 25 fps).
/// The init segment is immutable once served, so when a source is expected
/// to carry audio, init generation waits for the first ADTS frame to
/// describe the track — but never indefinitely.
pub const AUDIO_PARAMS_WAIT_SAMPLES: u64 = 100;

/// fMP4 initialization segment containing ftyp and moov boxes.
#[derive(Debug, Clone)]
pub struct InitSegment {
    pub data: Vec<u8>,
    pub codec: VideoCodec,
    pub width: u32,
    pub height: u32,
    pub timescale: u32,
    /// MPEG-4 Audio Object Type of the muxed audio track (2 = AAC-LC), or
    /// `None` when the init segment is video-only. Drives the playlist
    /// CODECS attribute (`mp4a.40.{aot}`).
    pub audio_object_type: Option<u8>,
}

/// The value of an [`InitSegment`].
pub struct InitView {
    pub data: Seq<u8>,
    pub codec: VideoCodec,
    pub width: u32,
    pub height: u32,
    pub timescale: u32,
    pub audio_object_type: Option<u8>,
}

impl View for InitSegment {
    type V = InitView;

    open spec fn view(&self) -> InitView {
        InitView {
            data: self.data@,
            codec: self.codec,
            width: self.width,
            height: self.height,
            timescale: self.timescale,
            audio_object_type: self.audio_object_type,
        }
    }
}

impl InitSegment {
    /// A copy of this init segment.
    pub fn duplicate(&self) -> (r: InitSegment)
        ensures
            r@ == self@,
    {
        InitSegment {
            data: to_vec(self.data.as_slice()),
            codec: self.codec,
            width: self.width,
            height: self.height,
            timescale: self.timescale,
            audio_object_type: self.audio_object_type,
        }
    }
}

/// fMP4 media segment containing moof and mdat boxes.
#[derive(Debug, Clone)]
pub struct FMP4Segment {
    pub sequence: u64,
    pub data: Vec<u8>,
    /// Duration in microseconds.
    pub duration_us: u64,
    /// Decode time of the first sample, in timescale ticks.
    pub timestamp: u64,
    pub is_keyframe: bool,
}

/// The value of an [`FMP4Segment`].
pub struct SegmentView {
    pub sequence: u64,
    pub data: Seq<u8>,
    pub duration_us: u64,
    pub timestamp: u64,
    pub is_keyframe: bool,
}

impl View for FMP4Segment {
    type V = SegmentView;

    open spec fn view(&self) -> SegmentView {
        SegmentView {
            sequence: self.sequence,
            data: self.data@,
            duration_us: self.duration_us,
            timestamp: self.timestamp,
            is_keyframe: self.is_keyframe,
        }
    }
}

/// The view of an optional segment.
pub open spec fn opt_segment(s: Option<FMP4Segment>) -> Option<SegmentView> {
    match s {
        Some(x) => Some(x@),
        None => None,
    }
}

/// The logical state of a segmenter.
pub struct SegmenterView {
    pub monitor_id: u32,
    pub sequence: u64,
    pub codec: VideoCodec,
    pub width: u32,
    pub height: u32,
    pub sps: Option<Seq<u8>>,
    pub pps: Option<Seq<u8>>,
    /// H.265 only.
    pub vps: Option<Seq<u8>>,
    pub init: Option<InitView>,
    /// Completed access units of the current segment.
    pub samples: Seq<SampleView>,
    /// The access unit being assembled.
    pub pending: Option<SampleView>,
    pub segment_start: Option<u64>,
    pub target_duration_us: u64,
    /// Whether the first keyframe has arrived; VCL data before it is dropped.
    pub received_keyframe: bool,
    /// First VCL NAL timestamp (µs); later timestamps count from it.
    pub base_timestamp_us: Option<u64>,
    pub expect_audio: bool,
    pub audio: Option<AudioTrack>,
    pub init_has_audio: bool,
    pub audio_samples: Seq<(Seq<u8>, u64)>,
    pub video_samples_seen: u64,
}

/// Whether the VCL flag of an NAL for a codec: H.264 types 1..=5, H.265
/// types 0..=31; never without a start code and header byte.
pub open spec fn spec_is_vcl_nal(codec: VideoCodec, nal: Seq<u8>) -> bool {
    let sc = start_code_len(nal);
    if sc == 0 || sc >= nal.len() {
        false
    } else {
        let b = nal[sc];
        match codec {
            VideoCodec::H264 => 1 <= (b & 0x1fu8) <= 5,
            VideoCodec::H265 => ((b >> 1u8) & 0x3fu8) <= 31,
            VideoCodec::Unknown => false,
        }
    }
}

/// The codec a parameter-set NAL header byte reveals when the codec is not
/// yet known: H.264 SPS/PPS/IDR, else H.265 VPS/SPS/PPS.
pub open spec fn detect_codec(codec: VideoCodec, b: u8) -> VideoCodec {
    match codec {
        VideoCodec::Unknown => {
            let t4 = b & 0x1fu8;
            let t5 = (b >> 1u8) & 0x3fu8;
            if t4 == 7 || t4 == 8 || t4 == 5 {
                VideoCodec::H264
            } else if 32 <= t5 <= 34 {
                VideoCodec::H265
            } else {
                VideoCodec::Unknown
            }
        },
        c => c,
    }
}

/// A new H.264 SPS: its dimensions replace the current ones when they parse
/// and differ, and then the cached init segment is dropped.
pub open spec fn apply_sps_dimensions(v: SegmenterView, sps: Seq<u8>) -> SegmenterView {
    match spec_sps_dimensions(sps) {
        Some((w, h)) => if w != v.width || h != v.height {
            SegmenterView { width: w, height: h, init: None, ..v }
        } else {
            v
        },
        None => v,
    }
}

/// The state after a NAL's parameter sets (SPS/PPS/VPS) are extracted.
pub open spec fn spec_extract_parameter_sets(v: SegmenterView, nal: Seq<u8>) -> SegmenterView {
    let sc = start_code_len(nal);
    if nal.len() < 5 || sc == 0 {
        v
    } else {
        let b = nal[sc];
        let codec = detect_codec(v.codec, b);
        let v1 = SegmenterView { codec, ..v };
        let ps = nal.subrange(sc, nal.len() as int);
        match codec {
            VideoCodec::H264 => {
                let t = b & 0x1fu8;
                if t == 7 {
                    apply_sps_dimensions(SegmenterView { sps: Some(ps), ..v1 }, ps)
                } else if t == 8 {
                    SegmenterView { pps: Some(ps), ..v1 }
                } else {
                    v1
                }
            },
            VideoCodec::H265 => {
                let t = (b >> 1u8) & 0x3fu8;
                if t == 32 {
                    SegmenterView { vps: Some(ps), ..v1 }
                } else if t == 33 {
                    SegmenterView { sps: Some(ps), ..v1 }
                } else if t == 34 {
                    SegmenterView { pps: Some(ps), ..v1 }
                } else {
                    v1
                }
            },
            VideoCodec::Unknown => v1,
        }
    }
}

/// `a - b`, or 0 when `b > a`.
pub open spec fn sat_sub(a: u64, b: u64) -> u64 {
    if a > b { (a - b) as u64 } else { 0 }
}

/// A microsecond time in ticks of a timescale.
pub open spec fn us_to_ticks(us: u64, timescale: u32) -> u64 {
    (us * timescale / 1_000_000int) as u64
}

/// A tick count of a timescale in microseconds.
pub open spec fn ticks_to_us(ticks: u64, timescale: u32) -> u64 {
    (ticks * 1_000_000 / (timescale as int)) as u64
}

/// Whether any sample is a keyframe.
pub open spec fn any_keyframe(samples: Seq<SampleView>) -> bool {
    exists|i: int| 0 <= i < samples.len() && samples[i].is_keyframe
}

/// Finalizing the current segment with `next_start` as the decode time of
/// the next segment's first sample: the segment's duration spans from its
/// start to `next_start`, and the last sample's duration reaches it.
pub open spec fn spec_finalize_segment(v: SegmenterView, next_start: u64) -> (SegmenterView, Option<SegmentView>) {
    if v.samples.len() == 0 {
        (v, None)
    } else {
        match v.segment_start {
            None => (v, None),
            Some(start) => {
                let seg = SegmentView {
                    sequence: v.sequence,
                    data: media_segment_bytes(v.sequence, v.samples, v.audio_samples, v.init_has_audio, start, next_start),
                    duration_us: ticks_to_us(sat_sub(next_start, start), VIDEO_TIMESCALE),
                    timestamp: start,
                    is_keyframe: any_keyframe(v.samples),
                };
                let v2 = SegmenterView {
                    sequence: wrap_inc(v.sequence),
                    samples: seq![],
                    audio_samples: seq![],
                    segment_start: None,
                    ..v
                };
                (v2, Some(seg))
            },
        }
    }
}

/// A wrapping increment.
pub open spec fn wrap_inc(n: u64) -> u64 {
    if n < u64::MAX { (n + 1) as u64 } else { 0 }
}

/// A saturating increment.
pub open spec fn sat_inc(n: u64) -> u64 {
    if n < u64::MAX { (n + 1) as u64 } else { n }
}

/// A NAL joining the access unit being assembled, or starting one at
/// `timestamp`.
pub open spec fn add_to_pending(pending: Option<SampleView>, nal: Seq<u8>, timestamp: u64, is_keyframe: bool) -> SampleView {
    match pending {
        Some(p) => SampleView { nals: p.nals.push(nal), is_keyframe: p.is_keyframe || is_keyframe, ..p },
        None => SampleView { nals: seq![nal], timestamp, is_keyframe },
    }
}

/// A VCL NAL at `timestamp` (ticks; `t_us` µs since the origin) meeting
/// the access unit being assembled: when it starts a new picture, the
/// pending unit completes; when that new picture is a keyframe and the
/// segment (which started at `seg_start` ticks) has reached its target
/// duration, the segment is finalized and the keyframe starts the next one.
pub open spec fn spec_complete_pending(v: SegmenterView, nal: Seq<u8>, timestamp: u64, t_us: u64, seg_start: u64, is_keyframe: bool) -> (SegmenterView, Option<SegmentView>) {
    match v.pending {
        None => (v, None),
        Some(p) => if !spec_slice_starts_picture(nal, v.codec) {
            (v, None)
        } else {
            let v3 = SegmenterView {
                samples: v.samples.push(p),
                pending: None,
                video_samples_seen: sat_inc(v.video_samples_seen),
                ..v
            };
            if is_keyframe && v3.samples.len() > 1
                && sat_sub(t_us, ticks_to_us(seg_start, VIDEO_TIMESCALE)) >= v3.target_duration_us {
                let (v4, seg) = spec_finalize_segment(v3, timestamp);
                (SegmenterView { segment_start: Some(timestamp), ..v4 }, seg)
            } else {
                (v3, None)
            }
        },
    }
}

/// A VCL NAL accepted into the stream (at or after the first keyframe):
/// its timestamp counts from the first accepted NAL, in 90 kHz ticks.
pub open spec fn spec_accept_vcl(v: SegmenterView, nal: Seq<u8>, timestamp_us: u64, is_keyframe: bool) -> (SegmenterView, Option<SegmentView>) {
    let base = match v.base_timestamp_us { Some(b) => b, None => timestamp_us };
    let t_us = sat_sub(timestamp_us, base);
    let timestamp = us_to_ticks(t_us, VIDEO_TIMESCALE);
    let seg_start = match v.segment_start { Some(s) => s, None => timestamp };
    let v1 = SegmenterView {
        received_keyframe: true,
        base_timestamp_us: Some(base),
        segment_start: Some(seg_start),
        ..v
    };
    let (v2, out) = spec_complete_pending(v1, nal, timestamp, t_us, seg_start, is_keyframe);
    (SegmenterView { pending: Some(add_to_pending(v2.pending, nal, timestamp, is_keyframe)), ..v2 }, out)
}

/// Processing one NAL unit: parameter sets are extracted; only VCL NALs
/// from the first keyframe on enter samples.
pub open spec fn spec_process_nal(v0: SegmenterView, nal: Seq<u8>, timestamp_us: u64, is_keyframe: bool) -> (SegmenterView, Option<SegmentView>) {
    let v = spec_extract_parameter_sets(v0, nal);
    if !spec_is_vcl_nal(v.codec, nal) || (!v.received_keyframe && !is_keyframe) {
        (v, None)
    } else {
        spec_accept_vcl(v, nal, timestamp_us, is_keyframe)
    }
}

/// The final sample's duration estimate at end of stream: the last
/// inter-sample gap (at least 1), or 1/30 s for a lone sample.
pub open spec fn trailing_frame_duration(samples: Seq<SampleView>) -> u64 {
    let n = samples.len();
    if n >= 2 {
        let gap = sat_sub(samples[n - 1].timestamp, samples[n - 2].timestamp);
        if gap < 1 { 1u64 } else { gap }
    } else {
        (VIDEO_TIMESCALE / 30) as u64
    }
}

/// Flushing at end of stream: the pending access unit joins the segment,
/// which is finalized with its end estimated from the trailing frame gap.
pub open spec fn spec_flush(v0: SegmenterView) -> (SegmenterView, Option<SegmentView>) {
    let v = match v0.pending {
        Some(p) => SegmenterView { samples: v0.samples.push(p), pending: None, ..v0 },
        None => v0,
    };
    if v.samples.len() == 0 {
        (v, None)
    } else {
        let last = v.samples[v.samples.len() - 1].timestamp;
        let end = last + trailing_frame_duration(v.samples);
        spec_finalize_segment(v, if end <= u64::MAX { end as u64 } else { u64::MAX })
    }
}

/// The audio track an ADTS header describes.
pub open spec fn audio_track_of(h: AdtsHeader) -> AudioTrack {
    AudioTrack {
        object_type: h.audio_object_type,
        sample_rate: h.sample_rate,
        channels: h.channel_configuration,
        asc: [spec_asc_bytes(h.audio_object_type, h.sampling_frequency_index, h.channel_configuration)[0],
            spec_asc_bytes(h.audio_object_type, h.sampling_frequency_index, h.channel_configuration)[1]],
    }
}

/// Whether an audio frame would be accumulated: ADTS-framed, the init
/// segment (if any) has an audio track, a keyframe has arrived, and the
/// timestamp origin is set.
pub open spec fn audio_accepted(v: SegmenterView, data: Seq<u8>) -> bool {
    &&& spec_adts_parse(data) is Some
    &&& !(v.init is Some && !v.init_has_audio)
    &&& v.received_keyframe
    &&& v.base_timestamp_us is Some
}

/// Processing one ADTS frame: the first one fixes the audio parameters;
/// accepted frames are accumulated without their header, timestamped in
/// audio-timescale ticks since the video origin.
pub open spec fn spec_process_audio(v: SegmenterView, data: Seq<u8>, timestamp_us: u64) -> SegmenterView {
    match spec_adts_parse(data) {
        None => v,
        Some(h) => {
            let audio = match v.audio { Some(a) => a, None => audio_track_of(h) };
            let v1 = SegmenterView { audio: Some(audio), ..v };
            if !audio_accepted(v, data) {
                v1
            } else {
                let base = v.base_timestamp_us->0;
                let ts = us_to_ticks(sat_sub(timestamp_us, base), audio.sample_rate);
                let end = if h.frame_len < data.len() { h.frame_len as int } else { data.len() as int };
                SegmenterView { audio_samples: v1.audio_samples.push((data.subrange(h.header_len as int, end), ts)), ..v1 }
            }
        },
    }
}

/// Generating the init segment: it needs SPS and PPS; when audio is
/// expected but its parameters are missing it waits, for at most
/// [`AUDIO_PARAMS_WAIT_SAMPLES`] video samples; an unknown codec yields
/// none. The generated segment is cached.
pub open spec fn spec_generate_init_segment(v: SegmenterView) -> (SegmenterView, Option<InitView>) {
    if v.sps is None || v.pps is None {
        (v, None)
    } else if v.expect_audio && v.audio is None && v.video_samples_seen < AUDIO_PARAMS_WAIT_SAMPLES {
        (v, None)
    } else {
        let v1 = SegmenterView { init_has_audio: v.audio is Some, ..v };
        if v.codec == VideoCodec::Unknown {
            (v1, None)
        } else {
            let init = InitView {
                data: init_segment_bytes(v.codec == VideoCodec::H265, v.width, v.height, VIDEO_TIMESCALE,
                    v.sps->0, v.pps->0, v.vps, v.audio),
                codec: v.codec,
                width: v.width,
                height: v.height,
                timescale: VIDEO_TIMESCALE,
                audio_object_type: match v.audio { Some(a) => Some(a.object_type), None => None },
            };
            (SegmenterView { init: Some(init), ..v1 }, Some(init))
        }
    }
}

/// HLS segmenter: turns NAL units and ADTS frames into fMP4 segments.
pub struct HlsSegmenter {
    monitor_id: u32,
    sequence: u64,
    codec: VideoCodec,
    width: u32,
    height: u32,
    sps: Option<Vec<u8>>,
    pps: Option<Vec<u8>>,
    vps: Option<Vec<u8>>,
    init_segment: Option<InitSegment>,
    current_segment_samples: Vec<SegmentSample>,
    pending_frame: Option<SegmentSample>,
    segment_start_time: Option<u64>,
    target_duration_us: u64,
    received_keyframe: bool,
    base_timestamp_us: Option<u64>,
    expect_audio: bool,
    audio_params: Option<AudioTrack>,
    init_has_audio: bool,
    current_segment_audio: Vec<AudioSample>,
    video_samples_seen: u64,
}

/// The view of an optional init segment.
pub open spec fn opt_init(i: Option<InitSegment>) -> Option<InitView> {
    match i {
        Some(x) => Some(x@),
        None => None,
    }
}

/// The view of an optional sample.
pub open spec fn opt_sample(s: Option<SegmentSample>) -> Option<SampleView> {
    match s {
        Some(x) => Some(x@),
        None => None,
    }
}

impl View for HlsSegmenter {
    type V = SegmenterView;

    closed spec fn view(&self) -> SegmenterView {
        SegmenterView {
            monitor_id: self.monitor_id,
            sequence: self.sequence,
            codec: self.codec,
            width: self.width,
            height: self.height,
            sps: opt_bytes(self.sps),
            pps: opt_bytes(self.pps),
            vps: opt_bytes(self.vps),
            init: opt_init(self.init_segment),
            samples: samples_view(self.current_segment_samples@),
            pending: opt_sample(self.pending_frame),
            segment_start: self.segment_start_time,
            target_duration_us: self.target_duration_us,
            received_keyframe: self.received_keyframe,
            base_timestamp_us: self.base_timestamp_us,
            expect_audio: self.expect_audio,
            audio: self.audio_params,
            init_has_audio: self.init_has_audio,
            audio_samples: audio_view(self.current_segment_audio@),
            video_samples_seen: self.video_samples_seen,
        }
    }
}

/// The state of a new segmenter: nothing received, 1920x1080 until an SPS
/// says otherwise.
pub open spec fn initial_segmenter(monitor_id: u32, target_duration_us: u64) -> SegmenterView {
    SegmenterView {
        monitor_id,
        sequence: 0,
        codec: VideoCodec::Unknown,
        width: 1920,
        height: 1080,
        sps: None,
        pps: None,
        vps: None,
        init: None,
        samples: seq![],
        pending: None,
        segment_start: None,
        target_duration_us,
        received_keyframe: false,
        base_timestamp_us: None,
        expect_audio: false,
        audio: None,
        init_has_audio: false,
        audio_samples: seq![],
        video_samples_seen: 0,
    }
}

impl HlsSegmenter {
    /// Create a new HLS segmenter producing segments of (at least) the
    /// target duration, given in microseconds.
    pub fn new(monitor_id: u32, target_duration_us: u64) -> (r: Self)
        ensures
            r@ == initial_segmenter(monitor_id, target_duration_us),
    {
        let r = HlsSegmenter {
            monitor_id,
            sequence: 0,
            codec: VideoCodec::Unknown,
            width: 1920,
            height: 1080,
            sps: None,
            pps: None,
            vps: None,
            init_segment: None,
            current_segment_samples: Vec::new(),
            pending_frame: None,
            segment_start_time: None,
            target_duration_us,
            received_keyframe: false,
            base_timestamp_us: None,
            expect_audio: false,
            audio_params: None,
            init_has_audio: false,
            current_segment_audio: Vec::new(),
            video_samples_seen: 0,
        };
        assert(r@.samples =~= Seq::<SampleView>::empty());
        assert(r@.audio_samples =~= Seq::<(Seq<u8>, u64)>::empty());
        r
    }

    /// Set video dimensions.
    pub fn set_dimensions(&mut self, width: u32, height: u32)
        ensures
            final(self)@ == (SegmenterView { width, height, ..old(self)@ }),
    {
        self.width = width;
        self.height = height;
    }

    /// Set the codec.
    pub fn set_codec(&mut self, codec: VideoCodec)
        ensures
            final(self)@ == (SegmenterView { codec, ..old(self)@ }),
    {
        self.codec = codec;
    }

    /// Declare that the source delivers audio. Must be called before the
    /// init segment is generated; it makes init generation wait (bounded)
    /// for the first ADTS frame so the audio track is included.
    pub fn set_expect_audio(&mut self, expect_audio: bool)
        ensures
            final(self)@ == (SegmenterView { expect_audio, ..old(self)@ }),
    {
        self.expect_audio = expect_audio;
    }

    /// Parse an H.264 SPS for the picture dimensions.
    fn parse_h264_sps(&mut self, sps: &[u8])
        ensures
            final(self)@ == apply_sps_dimensions(old(self)@, sps@),
    {
        match parse_sps_dimensions(sps) {
            Some((w, h)) => {
                if w != self.width || h != self.height {
                    self.width = w;
                    self.height = h;
                    self.init_segment = None;
                }
            },
            None => {},
        }
    }

    /// Extract SPS/PPS/VPS from an Annex B NAL unit (detecting the codec
    /// from a parameter set when it is not known yet).
    pub fn extract_parameter_sets(&mut self, nal_data: &[u8])
        ensures
            final(self)@ == spec_extract_parameter_sets(old(self)@, nal_data@),
    {
        let sc = leading_start_code_len(nal_data);
        if nal_data.len() < 5 || sc == 0 {
            return;
        }
        let b = nal_data[sc];
        match self.codec {
            VideoCodec::Unknown => {
                let t4 = b & 0x1f;
                let t5 = (b >> 1) & 0x3f;
                if t4 == 7 || t4 == 8 || t4 == 5 {
                    self.codec = VideoCodec::H264;
                } else if 32 <= t5 && t5 <= 34 {
                    self.codec = VideoCodec::H265;
                }
            },
            _ => {},
        }
        let ps = &nal_data[sc..nal_data.len()];
        match self.codec {
            VideoCodec::H264 => {
                let t = b & 0x1f;
                if t == 7 {
                    self.sps = Some(to_vec(ps));
                    self.parse_h264_sps(ps);
                } else if t == 8 {
                    self.pps = Some(to_vec(ps));
                }
            },
            VideoCodec::H265 => {
                let t = (b >> 1) & 0x3f;
                if t == 32 {
                    self.vps = Some(to_vec(ps));
                } else if t == 33 {
                    self.sps = Some(to_vec(ps));
                } else if t == 34 {
                    self.pps = Some(to_vec(ps));
                }
            },
            VideoCodec::Unknown => {},
        }
    }

    /// Check if a NAL unit contains video coding layer (slice) data. Only
    /// VCL NALs go into media segments; SPS, PPS, AUD, SEI, filler etc. are
    /// excluded.
    pub fn is_vcl_nal(&self, nal_data: &[u8]) -> (r: bool)
        ensures
            r == spec_is_vcl_nal(self@.codec, nal_data@),
    {
        let sc = leading_start_code_len(nal_data);
        if sc == 0 || sc >= nal_data.len() {
            return false;
        }
        let b = nal_data[sc];
        match self.codec {
            VideoCodec::H264 => {
                let t = b & 0x1f;
                1 <= t && t <= 5
            },
            VideoCodec::H265 => ((b >> 1) & 0x3f) <= 31,
            VideoCodec::Unknown => false,
        }
    }
}

impl HlsSegmenter {
    /// Finalize the current segment. `next_start` is the decode timestamp of
    /// the next segment's first sample; the last sample's duration reaches
    /// it, so consecutive segments are contiguous.
    fn finalize_segment(&mut self, next_start: u64) -> (r: Option<FMP4Segment>)
        ensures
            (final(self)@, opt_segment(r)) == spec_finalize_segment(old(self)@, next_start),
    {
        if self.current_segment_samples.len() == 0 {
            return None;
        }
        let start = match self.segment_start_time {
            Some(s) => s,
            None => return None,
        };
        let ghost sv = samples_view(self.current_segment_samples@);
        let mut has_keyframe = false;
        let mut i: usize = 0;
        while i < self.current_segment_samples.len()
            invariant
                i <= self.current_segment_samples@.len(),
                sv == samples_view(self.current_segment_samples@),
                has_keyframe == exists|k: int| 0 <= k < i && sv[k].is_keyframe,
            decreases self.current_segment_samples.len() - i,
        {
            assert(sv[i as int].is_keyframe == self.current_segment_samples@[i as int].is_keyframe);
            if self.current_segment_samples[i].is_keyframe {
                has_keyframe = true;
            }
            i += 1;
        }
        let ticks: u64 = if next_start > start { next_start - start } else { 0 };
        let duration_us = ((ticks as u128 * 1_000_000) / 90000) as u64;
        let data = build_media_segment(
            self.sequence,
            &self.current_segment_samples,
            &self.current_segment_audio,
            self.init_has_audio,
            start,
            next_start,
        );
        let seg = FMP4Segment { sequence: self.sequence, data, duration_us, timestamp: start, is_keyframe: has_keyframe };
        self.sequence = if self.sequence < u64::MAX { self.sequence + 1 } else { 0 };
        self.current_segment_samples.clear();
        self.current_segment_audio.clear();
        self.segment_start_time = None;
        proof {
            assert(samples_view(self.current_segment_samples@) =~= Seq::<SampleView>::empty());
            assert(audio_view(self.current_segment_audio@) =~= Seq::<(Seq<u8>, u64)>::empty());
        }
        Some(seg)
    }

    /// Complete the pending access unit if `nal_data` starts a new picture,
    /// finalizing the segment when due.
    fn complete_pending(&mut self, nal_data: &[u8], timestamp: u64, t_us: u64, seg_start: u64, is_keyframe: bool) -> (r: Option<FMP4Segment>)
        ensures
            (final(self)@, opt_segment(r)) == spec_complete_pending(old(self)@, nal_data@, timestamp, t_us, seg_start, is_keyframe),
    {
        match self.pending_frame.take() {
            Some(p) => {
                if slice_starts_picture(nal_data, self.codec) {
                    self.current_segment_samples.push(p);
                    proof {
                        assert(samples_view(self.current_segment_samples@) =~= old(self)@.samples.push(p@));
                    }
                    if self.video_samples_seen < u64::MAX {
                        self.video_samples_seen = self.video_samples_seen + 1;
                    }
                    if is_keyframe && self.current_segment_samples.len() > 1 {
                        let seg_start_us = ((seg_start as u128 * 1_000_000) / 90000) as u64;
                        let elapsed: u64 = if t_us > seg_start_us { t_us - seg_start_us } else { 0 };
                        if elapsed >= self.target_duration_us {
                            let out = self.finalize_segment(timestamp);
                            self.segment_start_time = Some(timestamp);
                            return out;
                        }
                    }
                    None
                } else {
                    self.pending_frame = Some(p);
                    None
                }
            },
            None => None,
        }
    }

    /// Add a NAL to the access unit being assembled, or start one.
    fn add_to_pending_frame(&mut self, nal_data: &[u8], timestamp: u64, is_keyframe: bool)
        ensures
            final(self)@ == (SegmenterView {
                pending: Some(add_to_pending(old(self)@.pending, nal_data@, timestamp, is_keyframe)),
                ..old(self)@
            }),
    {
        let nal = to_vec(nal_data);
        let frame = match self.pending_frame.take() {
            Some(p) => {
                let mut p = p;
                let ghost pv = p@;
                p.nals.push(nal);
                p.is_keyframe = p.is_keyframe || is_keyframe;
                assert(p@.nals =~= pv.nals.push(nal_data@));
                p
            },
            None => {
                let mut nals: Vec<Vec<u8>> = Vec::new();
                nals.push(nal);
                let f = SegmentSample { nals, timestamp, is_keyframe };
                assert(f@.nals =~= seq![nal_data@]);
                f
            },
        };
        self.pending_frame = Some(frame);
    }

    /// Take in a VCL NAL at or after the first keyframe.
    fn accept_vcl(&mut self, nal_data: &[u8], timestamp_us: u64, is_keyframe: bool) -> (r: Option<FMP4Segment>)
        ensures
            (final(self)@, opt_segment(r)) == spec_accept_vcl(old(self)@, nal_data@, timestamp_us, is_keyframe),
    {
        self.received_keyframe = true;
        let base = match self.base_timestamp_us {
            Some(b) => b,
            None => {
                self.base_timestamp_us = Some(timestamp_us);
                timestamp_us
            },
        };
        let t_us: u64 = if timestamp_us > base { timestamp_us - base } else { 0 };
        let timestamp = ((t_us as u128 * 90000) / 1_000_000) as u64;
        let seg_start = match self.segment_start_time {
            Some(st) => st,
            None => {
                self.segment_start_time = Some(timestamp);
                timestamp
            },
        };
        let result = self.complete_pending(nal_data, timestamp, t_us, seg_start, is_keyframe);
        self.add_to_pending_frame(nal_data, timestamp, is_keyframe);
        result
    }

    /// Process a NAL unit and potentially produce a segment.
    pub fn process_nal(&mut self, nal_data: &[u8], timestamp_us: u64, is_keyframe: bool) -> (r: Option<FMP4Segment>)
        ensures
            (final(self)@, opt_segment(r)) == spec_process_nal(old(self)@, nal_data@, timestamp_us, is_keyframe),
    {
        self.extract_parameter_sets(nal_data);
        if !self.is_vcl_nal(nal_data) {
            return None;
        }
        if !self.received_keyframe && !is_keyframe {
            return None;
        }
        self.accept_vcl(nal_data, timestamp_us, is_keyframe)
    }
}

/// An accepted ADTS frame's header fits in the bytes given (its payload
/// slice is well formed).
pub open spec fn audio_frame_in_bounds(data: Seq<u8>) -> bool {
    match spec_adts_parse(data) {
        Some(h) => h.header_len <= data.len(),
        None => true,
    }
}

impl HlsSegmenter {
    /// Flush the buffered access unit and emit the final (trailing) segment.
    ///
    /// Live streaming finalizes a segment only when the *next* keyframe
    /// arrives, so a finite/VOD source must call this at end of file to emit
    /// the last segment. Returns `None` if nothing is buffered.
    pub fn flush(&mut self) -> (r: Option<FMP4Segment>)
        ensures
            (final(self)@, opt_segment(r)) == spec_flush(old(self)@),
    {
        match self.pending_frame.take() {
            Some(p) => {
                self.current_segment_samples.push(p);
                proof {
                    assert(samples_view(self.current_segment_samples@) =~= old(self)@.samples.push(p@));
                }
            },
            None => {},
        }
        let n = self.current_segment_samples.len();
        if n == 0 {
            return None;
        }
        let last = self.current_segment_samples[n - 1].timestamp;
        let frame_dur: u64 = if n >= 2 {
            let prev = self.current_segment_samples[n - 2].timestamp;
            let gap: u64 = if last > prev { last - prev } else { 0 };
            if gap < 1 { 1 } else { gap }
        } else {
            3000
        };
        let end = if frame_dur <= u64::MAX - last { last + frame_dur } else { u64::MAX };
        self.finalize_segment(end)
    }

    /// Process one audio packet (an ADTS-framed AAC frame from the source).
    ///
    /// Audio never produces a segment — video keyframes drive segment
    /// boundaries — it accumulates and is muxed into the next segment's
    /// audio `traf`. Frames are dropped when the data is not ADTS, when the
    /// first video keyframe has not arrived yet, or when the init segment
    /// was already generated without an audio track.
    pub fn process_audio(&mut self, data: &[u8], timestamp_us: u64)
        requires
            audio_accepted(old(self)@, data@) ==> audio_frame_in_bounds(data@),
        ensures
            final(self)@ == spec_process_audio(old(self)@, data@, timestamp_us),
    {
        let h = match AdtsHeader::parse(data) {
            Some(h) => h,
            None => return,
        };
        if self.audio_params.is_none() {
            let asc = h.audio_specific_config();
            let track = AudioTrack {
                object_type: h.audio_object_type,
                sample_rate: h.sample_rate,
                channels: h.channel_configuration,
                asc: [asc[0], asc[1]],
            };
            self.audio_params = Some(track);
        }
        if self.init_segment.is_some() && !self.init_has_audio {
            return;
        }
        if !self.received_keyframe {
            return;
        }
        let base = match self.base_timestamp_us {
            Some(b) => b,
            None => return,
        };
        let rate = match self.audio_params {
            Some(a) => a.sample_rate,
            None => return,
        };
        let norm: u64 = if timestamp_us > base { timestamp_us - base } else { 0 };
        assert(norm as int * rate as int <= 0xffff_ffff_ffff_ffffint * 0xffff_ffffint) by (nonlinear_arith)
            requires
                norm <= 0xffff_ffff_ffff_ffffu64,
                rate <= 0xffff_ffffu32,
        ;
        let ts = ((norm as u128 * rate as u128) / 1_000_000) as u64;
        let end = if h.frame_len < data.len() { h.frame_len } else { data.len() };
        let payload = to_vec(&data[h.header_len..end]);
        self.current_segment_audio.push(AudioSample { data: payload, timestamp: ts });
        proof {
            assert(audio_view(self.current_segment_audio@) =~= audio_view(old(self).current_segment_audio@).push(
                (data@.subrange(h.header_len as int, end as int), ts)));
        }
    }

    /// Generate the initialization segment (and cache it).
    pub fn generate_init_segment(&mut self) -> (r: Option<InitSegment>)
        ensures
            (final(self)@, match r { Some(i) => Some(i@), None => None::<InitView> }) == spec_generate_init_segment(old(self)@),
    {
        if self.sps.is_none() || self.pps.is_none() {
            return None;
        }
        if self.expect_audio && self.audio_params.is_none() && self.video_samples_seen < AUDIO_PARAMS_WAIT_SAMPLES {
            return None;
        }
        self.init_has_audio = self.audio_params.is_some();
        let hevc = match self.codec {
            VideoCodec::H264 => false,
            VideoCodec::H265 => true,
            VideoCodec::Unknown => return None,
        };
        let data = match (&self.sps, &self.pps) {
            (Some(sps), Some(pps)) => build_init_segment(
                hevc,
                self.width,
                self.height,
                VIDEO_TIMESCALE,
                sps.as_slice(),
                pps.as_slice(),
                &self.vps,
                self.audio_params,
            ),
            _ => return None,
        };
        let audio_object_type = match self.audio_params {
            Some(a) => Some(a.object_type),
            None => None,
        };
        let init = InitSegment {
            data,
            codec: self.codec,
            width: self.width,
            height: self.height,
            timescale: VIDEO_TIMESCALE,
            audio_object_type,
        };
        self.init_segment = Some(init.duplicate());
        Some(init)
    }

    /// The cached init segment.
    pub fn get_init_segment(&self) -> (r: Option<&InitSegment>)
        ensures
            match r {
                Some(i) => self@.init == Some(i@),
                None => self@.init is None,
            },
    {
        match &self.init_segment {
            Some(i) => Some(i),
            None => None,
        }
    }

    /// The stored SPS (without start code).
    pub fn sps(&self) -> (r: Option<&[u8]>)
        ensures
            match r {
                Some(b) => self@.sps == Some(b@),
                None => self@.sps is None,
            },
    {
        match &self.sps {
            Some(v) => Some(v.as_slice()),
            None => None,
        }
    }

    /// The stored PPS (without start code).
    pub fn pps(&self) -> (r: Option<&[u8]>)
        ensures
            match r {
                Some(b) => self@.pps == Some(b@),
                None => self@.pps is None,
            },
    {
        match &self.pps {
            Some(v) => Some(v.as_slice()),
            None => None,
        }
    }

    /// Current sequence number.
    pub fn sequence(&self) -> (r: u64)
        ensures
            r == self@.sequence,
    {
        self.sequence
    }

    /// Monitor ID.
    pub fn monitor_id(&self) -> (r: u32)
        ensures
            r == self@.monitor_id,
    {
        self.monitor_id
    }

    /// Current video width.
    pub fn width(&self) -> (r: u32)
        ensures
            r == self@.width,
    {
        self.width
    }

    /// Current video height.
    pub fn height(&self) -> (r: u32)
        ensures
            r == self@.height,
    {
        self.height
    }

    /// Whether the first keyframe has arrived.
    pub fn received_keyframe(&self) -> (r: bool)
        ensures
            r == self@.received_keyframe,
    {
        self.received_keyframe
    }

    /// Whether the audio parameters are known.
    pub fn has_audio_params(&self) -> (r: bool)
        ensures
            r == self@.audio is Some,
    {
        self.audio_params.is_some()
    }

    /// Number of audio frames accumulated for the current segment.
    pub fn pending_audio_count(&self) -> (r: usize)
        ensures
            r == self@.audio_samples.len(),
    {
        self.current_segment_audio.len()
    }

    /// Completed samples plus the access unit being assembled (if any),
    /// saturating at `usize::MAX`.
    pub fn total_pending_samples(&self) -> (r: usize)
        ensures
            r == if self@.pending is Some && self@.samples.len() < usize::MAX {
                self@.samples.len() + 1int
            } else {
                self@.samples.len() as int
            },
    {
        let n = self.current_segment_samples.len();
        if self.pending_frame.is_some() && n < usize::MAX { n + 1 } else { n }
    }

    /// Number of NALs in the access unit being assembled.
    pub fn pending_nal_count(&self) -> (r: Option<usize>)
        ensures
            match r {
                Some(n) => self@.pending matches Some(p) && n == p.nals.len(),
                None => self@.pending is None,
            },
    {
        match &self.pending_frame {
            Some(p) => Some(p.nals.len()),
            None => None,
        }
    }

    /// Number of completed samples in the current segment.
    pub fn completed_sample_count(&self) -> (r: usize)
        ensures
            r == self@.samples.len(),
    {
        self.current_segment_samples.len()
    }

    /// NAL count and keyframe flag of completed sample `i`.
    pub fn completed_sample(&self, i: usize) -> (r: Option<(usize, bool)>)
        ensures
            i < self@.samples.len() ==> r == Some((self@.samples[i as int].nals.len() as usize, self@.samples[i as int].is_keyframe)),
            i >= self@.samples.len() ==> r is None,
    {
        if i < self.current_segment_samples.len() {
            let s = &self.current_segment_samples[i];
            Some((s.nals.len(), s.is_keyframe))
        } else {
            None
        }
    }
}

/// Non-VCL NALs (parameter sets, AUD, SEI, filler, ...) never enter media
/// segments: processing one leaves the samples and the access unit being
/// assembled unchanged and produces no segment.
pub proof fn lemma_non_vcl_nals_excluded(v: SegmenterView, nal: Seq<u8>, timestamp_us: u64, is_keyframe: bool)
    requires
        !spec_is_vcl_nal(spec_extract_parameter_sets(v, nal).codec, nal),
    ensures
        spec_process_nal(v, nal, timestamp_us, is_keyframe).1 is None,
        spec_process_nal(v, nal, timestamp_us, is_keyframe).0.samples == v.samples,
        spec_process_nal(v, nal, timestamp_us, is_keyframe).0.pending == v.pending,
{
}

/// Data before the first keyframe is dropped: until a keyframe arrives,
/// non-keyframe NALs neither enter samples nor produce segments, and the
/// segmenter keeps waiting for a keyframe.
pub proof fn lemma_dropped_before_first_keyframe(v: SegmenterView, nal: Seq<u8>, timestamp_us: u64)
    requires
        !v.received_keyframe,
    ensures
        spec_process_nal(v, nal, timestamp_us, false).1 is None,
        spec_process_nal(v, nal, timestamp_us, false).0.samples == v.samples,
        spec_process_nal(v, nal, timestamp_us, false).0.pending == v.pending,
        !spec_process_nal(v, nal, timestamp_us, false).0.received_keyframe,
{
}

/// Timestamps are normalized: the first accepted VCL NAL becomes the time
/// origin, so the first access unit (and so the first segment) starts at 0.
pub proof fn lemma_first_nal_is_time_origin(v: SegmenterView, nal: Seq<u8>, timestamp_us: u64, is_keyframe: bool)
    requires
        v.base_timestamp_us is None,
        v.pending is None,
        v.segment_start is None,
        spec_is_vcl_nal(spec_extract_parameter_sets(v, nal).codec, nal),
        v.received_keyframe || is_keyframe,
    ensures
        spec_process_nal(v, nal, timestamp_us, is_keyframe).0.base_timestamp_us == Some(timestamp_us),
        spec_process_nal(v, nal, timestamp_us, is_keyframe).0.segment_start == Some(0u64),
        spec_process_nal(v, nal, timestamp_us, is_keyframe).0.pending
            == Some(SampleView { nals: seq![nal], timestamp: 0, is_keyframe }),
{
}

/// When a NAL completes a segment, the keyframe that triggered it starts
/// the next one: the emitted segment carries the current sequence number
/// and lasts from its start to that keyframe's timestamp, the sequence
/// advances by one, and the next segment starts (with this NAL as its
/// first access unit) exactly where the emitted one ends.
pub proof fn lemma_segments_are_contiguous(v: SegmenterView, nal: Seq<u8>, timestamp_us: u64, is_keyframe: bool)
    requires
        spec_process_nal(v, nal, timestamp_us, is_keyframe).1 is Some,
    ensures
        ({
            let (v2, out) = spec_process_nal(v, nal, timestamp_us, is_keyframe);
            let seg = out->0;
            &&& seg.sequence == v.sequence
            &&& v2.sequence == wrap_inc(v.sequence)
            &&& is_keyframe
            &&& v2.samples.len() == 0
            &&& v2.audio_samples.len() == 0
            &&& v2.segment_start matches Some(t) && v2.pending matches Some(p)
                && p.timestamp == t && p.nals == seq![nal] && p.is_keyframe
                && seg.duration_us == ticks_to_us(sat_sub(t, seg.timestamp), VIDEO_TIMESCALE)
        }),
{
}

/// A second flush has nothing left to emit.
pub proof fn lemma_flush_twice(v: SegmenterView)
    ensures
        spec_flush(spec_flush(v).0).1 is None,
{
}

/// While audio is expected but no ADTS frame has described it, the init
/// segment is held back (for a bounded number of video samples) and the
/// state is unchanged.
pub proof fn lemma_init_waits_for_audio(v: SegmenterView)
    requires
        v.expect_audio,
        v.audio is None,
        v.video_samples_seen < AUDIO_PARAMS_WAIT_SAMPLES,
    ensures
        spec_generate_init_segment(v).1 is None,
        spec_generate_init_segment(v).0 == v,
{
}

/// An init segment is generated exactly when SPS and PPS are known, the
/// codec is, and audio is not being waited for; it describes an audio track
/// exactly when the audio parameters are known.
pub proof fn lemma_init_generated(v: SegmenterView)
    ensures
        spec_generate_init_segment(v).1 is Some <==> (v.sps is Some && v.pps is Some && v.codec != VideoCodec::Unknown
            && !(v.expect_audio && v.audio is None && v.video_samples_seen < AUDIO_PARAMS_WAIT_SAMPLES)),
        spec_generate_init_segment(v).1 matches Some(i) ==> (i.audio_object_type is Some <==> v.audio is Some)
            && spec_generate_init_segment(v).0.init == Some(i),
{
}

/// Audio that arrives after a video-only init segment was generated is
/// dropped: the init cannot describe the track retroactively.
pub proof fn lemma_late_audio_dropped(v: SegmenterView, data: Seq<u8>, timestamp_us: u64)
    requires
        v.init is Some,
        !v.init_has_audio,
    ensures
        spec_process_audio(v, data, timestamp_us).audio_samples == v.audio_samples,
{
}

/// Audio never creates or ends a segment and never touches video state.
pub proof fn lemma_audio_leaves_video_alone(v: SegmenterView, data: Seq<u8>, timestamp_us: u64)
    ensures
        spec_process_audio(v, data, timestamp_us).samples == v.samples,
        spec_process_audio(v, data, timestamp_us).pending == v.pending,
        spec_process_audio(v, data, timestamp_us).sequence == v.sequence,
        spec_process_audio(v, data, timestamp_us).segment_start == v.segment_start,
{
}

/// A segment's trun durations reach the next segment's decode time: when a
/// NAL completes a segment, the segment's bytes hold exactly the samples
/// assembled so far with the next segment's start `t` as the end of the
/// last one, and `t` is where the next segment starts. If those samples'
/// decode times increase strictly below `t` and the first is the segment's
/// start (as with strictly increasing picture timestamps), the trun
/// durations add up to `t` minus the segment's decode time, so the
/// segment never overlaps the next.
pub proof fn lemma_segment_durations_reach_next_start(v: SegmenterView, nal: Seq<u8>, timestamp_us: u64, is_keyframe: bool)
    requires
        spec_process_nal(v, nal, timestamp_us, is_keyframe).1 is Some,
    ensures
        ({
            let (v2, out) = spec_process_nal(v, nal, timestamp_us, is_keyframe);
            let seg = out->0;
            let t = v2.segment_start->0;
            let s = v.samples.push(v.pending->0);
            &&& v.pending is Some
            &&& v2.segment_start is Some
            &&& seg.data == media_segment_bytes(seg.sequence, s, v.audio_samples, v.init_has_audio, seg.timestamp, t)
            &&& (strictly_increasing_before(s, t) && s[0].timestamp == seg.timestamp)
                ==> total_duration(s, t, s.len() as int) == t - seg.timestamp
        }),
{
    let (v2, out) = spec_process_nal(v, nal, timestamp_us, is_keyframe);
    let t = v2.segment_start->0;
    let s = v.samples.push(v.pending->0);
    if strictly_increasing_before(s, t) {
        lemma_durations_reach_next_start(s, t);
    }
}

/// One call on a segmenter.
pub enum SegmenterEvent {
    /// `process_nal(nal, timestamp_us, is_keyframe)`.
    Nal { nal: Seq<u8>, timestamp_us: u64, is_keyframe: bool },
    /// `process_audio(data, timestamp_us)`.
    Audio { data: Seq<u8>, timestamp_us: u64 },
    /// `flush()`.
    Flush,
}

/// One event's effect: the new state and the segment it returns.
pub open spec fn spec_segmenter_step(v: SegmenterView, e: SegmenterEvent) -> (SegmenterView, Option<SegmentView>) {
    match e {
        SegmenterEvent::Nal { nal, timestamp_us, is_keyframe } => spec_process_nal(v, nal, timestamp_us, is_keyframe),
        SegmenterEvent::Audio { data, timestamp_us } => (spec_process_audio(v, data, timestamp_us), None),
        SegmenterEvent::Flush => spec_flush(v),
    }
}

/// A run of events: the final state and the segments returned, in order.
pub open spec fn spec_segmenter_run(v: SegmenterView, es: Seq<SegmenterEvent>) -> (SegmenterView, Seq<SegmentView>)
    decreases es.len(),
{
    if es.len() == 0 {
        (v, seq![])
    } else {
        let (v1, o) = spec_segmenter_step(v, es[0]);
        let (v2, outs) = spec_segmenter_run(v1, es.drop_first());
        (v2, match o {
            Some(seg) => seq![seg] + outs,
            None => outs,
        })
    }
}

proof fn lemma_step_sequence(v: SegmenterView, e: SegmenterEvent)
    ensures
        ({
            let (v1, o) = spec_segmenter_step(v, e);
            match o {
                Some(seg) => seg.sequence == v.sequence && v1.sequence == wrap_inc(v.sequence),
                None => v1.sequence == v.sequence,
            }
        }),
{
}

/// The sequence number counts the segments returned: over any run of
/// calls, the `k`-th segment returned carries the starting number plus
/// `k`, and the counter ends at the starting number plus the count (for a
/// new segmenter, the `k`-th segment is number `k`). This holds while the
/// count stays within `u64`.
pub proof fn lemma_sequence_counts_segments(v: SegmenterView, es: Seq<SegmenterEvent>)
    ensures
        ({
            let (v2, outs) = spec_segmenter_run(v, es);
            v.sequence + outs.len() <= u64::MAX ==> {
                &&& v2.sequence == v.sequence + outs.len()
                &&& forall|k: int| 0 <= k < outs.len() ==> #[trigger] outs[k].sequence == v.sequence + k
            }
        }),
    decreases es.len(),
{
    if es.len() > 0 {
        let (v1, o) = spec_segmenter_step(v, es[0]);
        let (v2, outs1) = spec_segmenter_run(v1, es.drop_first());
        lemma_step_sequence(v, es[0]);
        lemma_sequence_counts_segments(v1, es.drop_first());
        match o {
            Some(seg) => {
                let outs = seq![seg] + outs1;
                if v.sequence + outs.len() <= u64::MAX {
                    assert(v1.sequence == v.sequence + 1);
                    assert forall|k: int| 0 <= k < outs.len() implies #[trigger] outs[k].sequence == v.sequence + k by {
                        if k > 0 {
                            assert(outs[k] == outs1[k - 1]);
                        }
                    }
                }
            },
            None => {},
        }
    }
}

/// `w` is `v` with its timestamp origin moved later by `c` microseconds.
pub open spec fn shifted_by(v: SegmenterView, w: SegmenterView, c: u64) -> bool {
    w == SegmenterView {
        base_timestamp_us: match v.base_timestamp_us {
            Some(b) => Some((b + c) as u64),
            None => None,
        },
        ..v
    } && (v.base_timestamp_us matches Some(b) ==> b + c <= u64::MAX)
}

/// An event with its timestamp moved later by `c` microseconds.
pub open spec fn shift_event(e: SegmenterEvent, c: u64) -> SegmenterEvent {
    match e {
        SegmenterEvent::Nal { nal, timestamp_us, is_keyframe } =>
            SegmenterEvent::Nal { nal, timestamp_us: (timestamp_us + c) as u64, is_keyframe },
        SegmenterEvent::Audio { data, timestamp_us } => SegmenterEvent::Audio { data, timestamp_us: (timestamp_us + c) as u64 },
        SegmenterEvent::Flush => SegmenterEvent::Flush,
    }
}

/// Whether moving an event's timestamp by `c` stays within `u64`.
pub open spec fn shift_fits(e: SegmenterEvent, c: u64) -> bool {
    match e {
        SegmenterEvent::Nal { timestamp_us, .. } => timestamp_us + c <= u64::MAX,
        SegmenterEvent::Audio { timestamp_us, .. } => timestamp_us + c <= u64::MAX,
        SegmenterEvent::Flush => true,
    }
}

proof fn lemma_extract_keeps_shift(v: SegmenterView, w: SegmenterView, c: u64, nal: Seq<u8>)
    requires
        shifted_by(v, w, c),
    ensures
        shifted_by(spec_extract_parameter_sets(v, nal), spec_extract_parameter_sets(w, nal), c),
        spec_extract_parameter_sets(v, nal).base_timestamp_us == v.base_timestamp_us,
{
}

proof fn lemma_finalize_keeps_shift(v: SegmenterView, w: SegmenterView, c: u64, next_start: u64)
    requires
        shifted_by(v, w, c),
    ensures
        shifted_by(spec_finalize_segment(v, next_start).0, spec_finalize_segment(w, next_start).0, c),
        spec_finalize_segment(v, next_start).1 == spec_finalize_segment(w, next_start).1,
{
}

proof fn lemma_complete_keeps_shift(v: SegmenterView, w: SegmenterView, c: u64, nal: Seq<u8>, timestamp: u64, t_us: u64, seg_start: u64, is_keyframe: bool)
    requires
        shifted_by(v, w, c),
    ensures
        shifted_by(
            spec_complete_pending(v, nal, timestamp, t_us, seg_start, is_keyframe).0,
            spec_complete_pending(w, nal, timestamp, t_us, seg_start, is_keyframe).0,
            c,
        ),
        spec_complete_pending(v, nal, timestamp, t_us, seg_start, is_keyframe).1
            == spec_complete_pending(w, nal, timestamp, t_us, seg_start, is_keyframe).1,
{
    match v.pending {
        Some(p) => if spec_slice_starts_picture(nal, v.codec) {
            let v3 = SegmenterView {
                samples: v.samples.push(p),
                pending: None,
                video_samples_seen: sat_inc(v.video_samples_seen),
                ..v
            };
            let w3 = SegmenterView {
                samples: w.samples.push(p),
                pending: None,
                video_samples_seen: sat_inc(w.video_samples_seen),
                ..w
            };
            assert(shifted_by(v3, w3, c));
            lemma_finalize_keeps_shift(v3, w3, c, timestamp);
        },
        None => {},
    }
}

proof fn lemma_accept_keeps_shift(v: SegmenterView, w: SegmenterView, c: u64, nal: Seq<u8>, timestamp_us: u64, is_keyframe: bool)
    requires
        shifted_by(v, w, c),
        timestamp_us + c <= u64::MAX,
    ensures
        shifted_by(
            spec_accept_vcl(v, nal, timestamp_us, is_keyframe).0,
            spec_accept_vcl(w, nal, (timestamp_us + c) as u64, is_keyframe).0,
            c,
        ),
        spec_accept_vcl(v, nal, timestamp_us, is_keyframe).1 == spec_accept_vcl(w, nal, (timestamp_us + c) as u64, is_keyframe).1,
{
    let t2 = (timestamp_us + c) as u64;
    let base = match v.base_timestamp_us { Some(b) => b, None => timestamp_us };
    let base2 = match w.base_timestamp_us { Some(b) => b, None => t2 };
    assert(base2 == base + c);
    let t_us = sat_sub(timestamp_us, base);
    assert(sat_sub(t2, base2) == t_us);
    let timestamp = us_to_ticks(t_us, VIDEO_TIMESCALE);
    let seg_start = match v.segment_start { Some(s) => s, None => timestamp };
    let v1 = SegmenterView { received_keyframe: true, base_timestamp_us: Some(base), segment_start: Some(seg_start), ..v };
    let w1 = SegmenterView { received_keyframe: true, base_timestamp_us: Some(base2), segment_start: Some(seg_start), ..w };
    assert(shifted_by(v1, w1, c));
    lemma_complete_keeps_shift(v1, w1, c, nal, timestamp, t_us, seg_start, is_keyframe);
    let (v2, _) = spec_complete_pending(v1, nal, timestamp, t_us, seg_start, is_keyframe);
    let (w2, _) = spec_complete_pending(w1, nal, timestamp, t_us, seg_start, is_keyframe);
    assert(v2.pending == w2.pending);
}

proof fn lemma_nal_keeps_shift(v: SegmenterView, w: SegmenterView, c: u64, nal: Seq<u8>, timestamp_us: u64, is_keyframe: bool)
    requires
        shifted_by(v, w, c),
        timestamp_us + c <= u64::MAX,
    ensures
        shifted_by(
            spec_process_nal(v, nal, timestamp_us, is_keyframe).0,
            spec_process_nal(w, nal, (timestamp_us + c) as u64, is_keyframe).0,
            c,
        ),
        spec_process_nal(v, nal, timestamp_us, is_keyframe).1 == spec_process_nal(w, nal, (timestamp_us + c) as u64, is_keyframe).1,
{
    lemma_extract_keeps_shift(v, w, c, nal);
    let ve = spec_extract_parameter_sets(v, nal);
    let we = spec_extract_parameter_sets(w, nal);
    if spec_is_vcl_nal(ve.codec, nal) && (ve.received_keyframe || is_keyframe) {
        lemma_accept_keeps_shift(ve, we, c, nal, timestamp_us, is_keyframe);
    }
}

proof fn lemma_audio_keeps_shift(v: SegmenterView, w: SegmenterView, c: u64, data: Seq<u8>, timestamp_us: u64)
    requires
        shifted_by(v, w, c),
        timestamp_us + c <= u64::MAX,
    ensures
        shifted_by(spec_process_audio(v, data, timestamp_us), spec_process_audio(w, data, (timestamp_us + c) as u64), c),
{
    if v.base_timestamp_us is Some {
        let t2 = (timestamp_us + c) as u64;
        assert(sat_sub(t2, w.base_timestamp_us->0) == sat_sub(timestamp_us, v.base_timestamp_us->0));
    }
}

proof fn lemma_flush_keeps_shift(v: SegmenterView, w: SegmenterView, c: u64)
    requires
        shifted_by(v, w, c),
    ensures
        shifted_by(spec_flush(v).0, spec_flush(w).0, c),
        spec_flush(v).1 == spec_flush(w).1,
{
    let v1 = match v.pending {
        Some(p) => SegmenterView { samples: v.samples.push(p), pending: None, ..v },
        None => v,
    };
    let w1 = match w.pending {
        Some(p) => SegmenterView { samples: w.samples.push(p), pending: None, ..w },
        None => w,
    };
    assert(shifted_by(v1, w1, c));
    if v1.samples.len() > 0 {
        let last = v1.samples[v1.samples.len() - 1].timestamp;
        let end = last + trailing_frame_duration(v1.samples);
        lemma_finalize_keeps_shift(v1, w1, c, if end <= u64::MAX { end as u64 } else { u64::MAX });
    }
}

proof fn lemma_step_keeps_shift(v: SegmenterView, w: SegmenterView, c: u64, e: SegmenterEvent)
    requires
        shifted_by(v, w, c),
        shift_fits(e, c),
    ensures
        ({
            let (v1, o) = spec_segmenter_step(v, e);
            let (w1, p) = spec_segmenter_step(w, shift_event(e, c));
            shifted_by(v1, w1, c) && o == p
        }),
{
    match e {
        SegmenterEvent::Nal { nal, timestamp_us, is_keyframe } => {
            lemma_nal_keeps_shift(v, w, c, nal, timestamp_us, is_keyframe);
        },
        SegmenterEvent::Audio { data, timestamp_us } => {
            lemma_audio_keeps_shift(v, w, c, data, timestamp_us);
        },
        SegmenterEvent::Flush => {
            lemma_flush_keeps_shift(v, w, c);
        },
    }
}

/// Timestamps only count from the first accepted NAL: running the same
/// calls with every timestamp moved later by the same `c` (staying within
/// `u64`, e.g. hours of camera uptime) returns the same segments (bytes,
/// durations, decode times, numbers) from a new segmenter, or from any
/// state whose origin is moved by `c` as well.
pub proof fn lemma_timestamp_shift_invariance(v: SegmenterView, w: SegmenterView, c: u64, es: Seq<SegmenterEvent>)
    requires
        shifted_by(v, w, c),
        forall|i: int| 0 <= i < es.len() ==> shift_fits(#[trigger] es[i], c),
    ensures
        ({
            let (v2, outs) = spec_segmenter_run(v, es);
            let (w2, outs2) = spec_segmenter_run(w, es.map_values(|e: SegmenterEvent| shift_event(e, c)));
            outs2 == outs && shifted_by(v2, w2, c)
        }),
    decreases es.len(),
{
    let ses = es.map_values(|e: SegmenterEvent| shift_event(e, c));
    if es.len() > 0 {
        assert(shift_fits(es[0], c));
        assert(ses[0] == shift_event(es[0], c));
        assert(ses.drop_first() =~= es.drop_first().map_values(|e: SegmenterEvent| shift_event(e, c)));
        lemma_step_keeps_shift(v, w, c, es[0]);
        let (v1, o) = spec_segmenter_step(v, es[0]);
        let (w1, p) = spec_segmenter_step(w, ses[0]);
        assert forall|i: int| 0 <= i < es.drop_first().len() implies shift_fits(#[trigger] es.drop_first()[i], c) by {
            assert(es.drop_first()[i] == es[i + 1]);
        }
        lemma_timestamp_shift_invariance(v1, w1, c, es.drop_first());
    } else {
        assert(ses.len() == 0);
    }
}

/// A new segmenter is its own shift: its timestamp origin is not set yet.
pub proof fn lemma_new_segmenter_shifts(monitor_id: u32, target_duration_us: u64, c: u64)
    ensures
        shifted_by(initial_segmenter(monitor_id, target_duration_us), initial_segmenter(monitor_id, target_duration_us), c),
{
}

} // verus!
