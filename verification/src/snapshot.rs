//! Monitor snapshots.
//!
//! A snapshot is a JPEG of the most recent keyframe of a monitor. The
//! decoding and JPEG encoding are done by libavcodec; this module holds the
//! decisions around it: which FIFO packets make up a decodable keyframe
//! access unit, how a thumbnail is sized, and how failures are reported.

use vstd::prelude::*;
use crate::fifo::{FifoPacket, PacketView};
use crate::media::{h264_nal_type, h265_nal_type, spec_h264_nal_type, spec_h265_nal_type, VideoCodec};
use crate::router::RouterError;
use crate::wire::{put_slice, to_vec};

verus! {

/// Snapshots younger than this many milliseconds are served from the cache.
pub const DEFAULT_CACHE_TTL_MS: u64 = 2000;

/// How long, in milliseconds, a capture waits for a keyframe.
pub const KEYFRAME_TIMEOUT_MS: u64 = 5000;

/// JPEG quality handed to the MJPEG encoder (2 = best, 31 = worst).
pub const JPEG_QUALITY: u32 = 2;

/// Errors from the snapshot service.
#[derive(Debug)]
pub enum SnapshotError {
    /// No source could be opened for the monitor.
    SourceNotAvailable(u32),
    /// No keyframe arrived in time.
    KeyframeTimeout(u32),
    /// The decoder refused the access unit or produced no picture.
    DecodeFailed(String),
    /// Scaling or JPEG encoding failed.
    EncodeFailed(String),
    /// Any other failure of the source router.
    RouterError(RouterError),
    /// A recording could not be opened.
    Mp4OpenFailed(String),
}

/// How a failure to open a monitor's source is reported by a capture:
/// a missing stream socket means the monitor has no source, anything else
/// is passed on as a router error.
pub open spec fn spec_capture_error(monitor_id: u32, e: RouterError) -> SnapshotError {
    match e {
        RouterError::SocketNotFound(_) => SnapshotError::SourceNotAvailable(monitor_id),
        other => SnapshotError::RouterError(other),
    }
}

/// Map a router failure met while opening the source of `monitor_id` to the
/// error a snapshot request reports.
pub fn capture_error(monitor_id: u32, e: RouterError) -> (r: SnapshotError)
    ensures
        r == spec_capture_error(monitor_id, e),
{
    match e {
        RouterError::SocketNotFound(_) => SnapshotError::SourceNotAvailable(monitor_id),
        other => SnapshotError::RouterError(other),
    }
}

/// A codec parameter-set NAL unit.
#[derive(Debug, Clone, Copy, PartialEq, Eq, Structural)]
pub enum ParameterSet {
    /// Video Parameter Set (H.265 only).
    Vps,
    /// Sequence Parameter Set.
    Sps,
    /// Picture Parameter Set.
    Pps,
}

/// The parameter set a NAL of `codec` is, if it is one. H.264 has SPS (7)
/// and PPS (8); H.265 has VPS (32), SPS (33) and PPS (34). An unknown codec
/// is read as H.264.
pub open spec fn spec_parameter_set_kind(codec: VideoCodec, data: Seq<u8>) -> Option<ParameterSet> {
    match codec {
        VideoCodec::H265 => match spec_h265_nal_type(data) {
            Some(t) => if t == 32 {
                Some(ParameterSet::Vps)
            } else if t == 33 {
                Some(ParameterSet::Sps)
            } else if t == 34 {
                Some(ParameterSet::Pps)
            } else {
                None
            },
            None => None,
        },
        _ => match spec_h264_nal_type(data) {
            Some(t) => if t == 7 {
                Some(ParameterSet::Sps)
            } else if t == 8 {
                Some(ParameterSet::Pps)
            } else {
                None
            },
            None => None,
        },
    }
}

/// Classify a packet as a codec parameter set, if it is one.
pub fn parameter_set_kind(packet: &FifoPacket) -> (r: Option<ParameterSet>)
    ensures
        r == spec_parameter_set_kind(packet.codec, packet.data@),
{
    match packet.codec {
        VideoCodec::H265 => match h265_nal_type(packet.data.as_slice()) {
            Some(32) => Some(ParameterSet::Vps),
            Some(33) => Some(ParameterSet::Sps),
            Some(34) => Some(ParameterSet::Pps),
            _ => None,
        },
        _ => match h264_nal_type(packet.data.as_slice()) {
            Some(7) => Some(ParameterSet::Sps),
            Some(8) => Some(ParameterSet::Pps),
            _ => None,
        },
    }
}

/// Abstract state of a [`KeyframeCollector`].
pub struct CollectorView {
    pub vps: Option<Seq<u8>>,
    pub sps: Option<Seq<u8>>,
    pub pps: Option<Seq<u8>>,
    pub keyframe: Option<Seq<u8>>,
    pub keyframe_ts: Option<i64>,
}

/// The bytes of an optional NAL, empty when absent.
pub open spec fn present(o: Option<Seq<u8>>) -> Seq<u8> {
    match o {
        Some(s) => s,
        None => Seq::empty(),
    }
}

/// The parameter sets a keyframe is prefixed with: the latest VPS, SPS and
/// PPS seen, in that order, each only if one was seen.
pub open spec fn parameter_prefix(c: CollectorView) -> Seq<u8> {
    present(c.vps) + present(c.sps) + present(c.pps)
}

/// The collector collecting nothing yet.
pub open spec fn empty_collector() -> CollectorView {
    CollectorView { vps: None, sps: None, pps: None, keyframe: None, keyframe_ts: None }
}

/// One packet fed to a collector: the state after it, and the access unit
/// completed by it, if any.
///
/// A parameter set replaces the stored one of its kind. Before a keyframe,
/// packets are ignored until one flagged as keyframe arrives; it starts the
/// access unit, prefixed with the stored parameter sets. Packets sharing the
/// keyframe's timestamp are further slices of it and are appended. The first
/// packet with another timestamp completes the access unit, which is handed
/// out once.
pub open spec fn spec_collector_push(c: CollectorView, p: PacketView) -> (CollectorView, Option<Seq<u8>>) {
    match spec_parameter_set_kind(p.codec, p.data) {
        Some(ParameterSet::Vps) => (CollectorView { vps: Some(p.data), ..c }, None),
        Some(ParameterSet::Sps) => (CollectorView { sps: Some(p.data), ..c }, None),
        Some(ParameterSet::Pps) => (CollectorView { pps: Some(p.data), ..c }, None),
        None => match c.keyframe_ts {
            Some(ts) => if p.timestamp_us == ts {
                (CollectorView {
                    keyframe: match c.keyframe {
                        Some(k) => Some(k + p.data),
                        None => None,
                    },
                    ..c
                }, None)
            } else {
                (CollectorView { keyframe: None, ..c }, c.keyframe)
            },
            None => if p.is_keyframe {
                (CollectorView {
                    keyframe: Some(parameter_prefix(c) + p.data),
                    keyframe_ts: Some(p.timestamp_us),
                    ..c
                }, None)
            } else {
                (c, None)
            },
        },
    }
}

/// Assembles a decodable keyframe access unit from the NAL packets of a
/// FIFO broadcast.
///
/// Every parameter set and every keyframe slice arrives as a packet of its
/// own, and only the slices are flagged as keyframe. A decoder needs the
/// parameter sets a slice refers to, so the collector keeps the latest of
/// each and puts them in front of the keyframe.
pub struct KeyframeCollector {
    vps: Option<Vec<u8>>,
    sps: Option<Vec<u8>>,
    pps: Option<Vec<u8>>,
    keyframe: Option<Vec<u8>>,
    keyframe_ts: Option<i64>,
}

/// The bytes of an optional vector.
pub open spec fn opt_view(o: Option<Vec<u8>>) -> Option<Seq<u8>> {
    match o {
        Some(v) => Some(v@),
        None => None,
    }
}

impl View for KeyframeCollector {
    type V = CollectorView;

    closed spec fn view(&self) -> CollectorView {
        CollectorView {
            vps: opt_view(self.vps),
            sps: opt_view(self.sps),
            pps: opt_view(self.pps),
            keyframe: opt_view(self.keyframe),
            keyframe_ts: self.keyframe_ts,
        }
    }
}

/// Append the bytes of an optional NAL to `out`.
fn put_present(out: &mut Vec<u8>, o: &Option<Vec<u8>>)
    ensures
        final(out)@ == old(out)@ + present(opt_view(*o)),
{
    match o {
        Some(v) => put_slice(out, v.as_slice()),
        None => {
            assert(old(out)@ + Seq::<u8>::empty() =~= old(out)@);
        },
    }
}

impl KeyframeCollector {
    /// A collector that has seen nothing.
    pub fn new() -> (c: Self)
        ensures
            c@ == empty_collector(),
    {
        KeyframeCollector { vps: None, sps: None, pps: None, keyframe: None, keyframe_ts: None }
    }

    /// Feed one broadcast packet. Returns the keyframe access unit once a
    /// later packet shows that it is complete.
    pub fn push(&mut self, packet: &FifoPacket) -> (r: Option<Vec<u8>>)
        ensures
            (final(self)@, opt_view(r)) == spec_collector_push(old(self)@, packet@),
    {
        match parameter_set_kind(packet) {
            Some(ParameterSet::Vps) => {
                self.vps = Some(to_vec(packet.data.as_slice()));
                return None;
            },
            Some(ParameterSet::Sps) => {
                self.sps = Some(to_vec(packet.data.as_slice()));
                return None;
            },
            Some(ParameterSet::Pps) => {
                self.pps = Some(to_vec(packet.data.as_slice()));
                return None;
            },
            None => {},
        }
        match self.keyframe_ts {
            Some(ts) => {
                if packet.timestamp_us == ts {
                    let mut kf = None;
                    std::mem::swap(&mut kf, &mut self.keyframe);
                    match kf {
                        Some(mut k) => {
                            put_slice(&mut k, packet.data.as_slice());
                            self.keyframe = Some(k);
                        },
                        None => {},
                    }
                    None
                } else {
                    let mut kf = None;
                    std::mem::swap(&mut kf, &mut self.keyframe);
                    kf
                }
            },
            None => {
                if packet.is_keyframe {
                    let mut au: Vec<u8> = Vec::new();
                    put_present(&mut au, &self.vps);
                    put_present(&mut au, &self.sps);
                    put_present(&mut au, &self.pps);
                    put_slice(&mut au, packet.data.as_slice());
                    proof {
                        assert(au@ =~= parameter_prefix(old(self)@) + packet@.data);
                    }
                    self.keyframe = Some(au);
                    self.keyframe_ts = Some(packet.timestamp_us);
                }
                None
            },
        }
    }
}

/// A keyframe followed by a packet of a later picture yields exactly the
/// keyframe's access unit: the parameter sets seen so far, in VPS, SPS, PPS
/// order, then the keyframe slice. Nothing is handed out before.
pub proof fn lemma_access_unit_starts_with_parameter_sets(c: CollectorView, key: PacketView, next: PacketView)
    requires
        c.keyframe_ts is None,
        key.is_keyframe,
        spec_parameter_set_kind(key.codec, key.data) is None,
        spec_parameter_set_kind(next.codec, next.data) is None,
        next.timestamp_us != key.timestamp_us,
    ensures
        ({
            let (c1, r1) = spec_collector_push(c, key);
            let (c2, r2) = spec_collector_push(c1, next);
            &&& r1 is None
            &&& r2 == Some(parameter_prefix(c) + key.data)
        }),
{
}

/// A collector that has not started a keyframe hands out nothing, whatever
/// it is fed.
pub proof fn lemma_nothing_before_keyframe(c: CollectorView, p: PacketView)
    requires
        c.keyframe_ts is None,
    ensures
        spec_collector_push(c, p).1 is None,
        spec_collector_push(c, p).0.keyframe_ts is None <==> !(p.is_keyframe
            && spec_parameter_set_kind(p.codec, p.data) is None),
{
}

/// A slice sharing the keyframe's timestamp is appended to the access unit
/// being assembled.
pub proof fn lemma_same_picture_slices_appended(c: CollectorView, p: PacketView)
    requires
        c.keyframe_ts == Some(p.timestamp_us),
        c.keyframe is Some,
        spec_parameter_set_kind(p.codec, p.data) is None,
    ensures
        spec_collector_push(c, p).1 is None,
        spec_collector_push(c, p).0.keyframe == Some(c.keyframe->0 + p.data),
{
}

/// `x` with its lowest bit cleared.
pub open spec fn even_floor(x: int) -> int {
    x - x % 2
}

/// Size of a thumbnail of a `src_w` x `src_h` picture at most `max_width`
/// wide: a picture that fits is kept at its size; a wider one is scaled to
/// `max_width` keeping the aspect ratio (height rounded down, at least 2),
/// and both sides are rounded down to even numbers.
pub open spec fn spec_thumbnail_dimensions(src_w: u32, src_h: u32, max_width: u32) -> (int, int) {
    if src_w <= max_width {
        (src_w as int, src_h as int)
    } else {
        let scaled_h = (src_h as int) * (max_width as int) / (src_w as int);
        let h = if scaled_h < 2 { 2 } else { scaled_h };
        (even_floor(max_width as int), even_floor(h))
    }
}

/// Clear the lowest bit of `x`.
fn clear_low_bit(x: u32) -> (r: u32)
    ensures
        r == even_floor(x as int),
{
    let r = x & !1u32;
    assert(x & !1u32 == x - x % 2) by (bit_vector);
    r
}

/// Output size of a thumbnail (see [`spec_thumbnail_dimensions`]).
pub fn thumbnail_dimensions(src_w: u32, src_h: u32, max_width: u32) -> (r: (u32, u32))
    ensures
        (r.0 as int, r.1 as int) == spec_thumbnail_dimensions(src_w, src_h, max_width),
{
    if src_w <= max_width {
        (src_w, src_h)
    } else {
        assert((src_h as int) * (max_width as int) <= 0xffff_ffffint * 0xffff_ffffint) by (nonlinear_arith)
            requires
                src_h <= 0xffff_ffffint,
                max_width <= 0xffff_ffffint,
        ;
        let prod: u64 = (src_h as u64) * (max_width as u64);
        let q: u64 = prod / (src_w as u64);
        assert(q <= src_h) by (nonlinear_arith)
            requires
                prod as int == (src_h as int) * (max_width as int),
                q as int == (prod as int) / (src_w as int),
                max_width < src_w,
        ;
        let scaled_h: u32 = q as u32;
        let h: u32 = if scaled_h < 2 { 2 } else { scaled_h };
        (clear_low_bit(max_width), clear_low_bit(h))
    }
}

} // verus!
