//! ZoneMinder FIFO framing.
//!
//! ZoneMinder's `Fifo` frames every captured packet with the ASCII line
//! `ZM <byte_count> <pts>\n` followed by exactly `<byte_count>` bytes of
//! Annex B elementary stream. This module parses that framing and turns the
//! FIFO byte stream into NAL packets: `<pts>` becomes the packet timestamp
//! and NAL extraction is bounded to one packet's payload, so every NAL split
//! from one packet shares that packet's timestamp.

use vstd::prelude::*;
use crate::media::{split_annexb_nals, spec_split_annexb_nals, leading_start_code_len, start_code_len};
pub use crate::media::{
    extract_profile_level_id, h264_nal_type, h265_nal_type, slice_starts_picture, AudioCodec,
    VideoCodec,
};
use crate::wire::{find_first_from, find_from, put_slice, to_vec};
use crate::config::ZoneMinderConfig;
use crate::text::{decimal_chars, join_path, path_join, push_decimal, push_str};

verus! {

/// Largest single packet payload accepted from a `ZM` framing header; a
/// header claiming more is treated as corrupt or a false match. It must
/// exceed the biggest keyframe a supported camera emits (a 4K IDR is several
/// megabytes).
pub const MAX_NAL_BUF_SIZE: usize = 16777216;

/// A packet read from the FIFO: one NAL unit.
#[derive(Debug, Clone)]
pub struct FifoPacket {
    pub monitor_id: u32,
    pub timestamp_us: i64,
    pub data: Vec<u8>,
    pub is_keyframe: bool,
    pub codec: VideoCodec,
}

/// Errors that can occur when reading from a FIFO.
#[derive(Debug, Clone, PartialEq, Eq)]
pub enum FifoError {
    NotFound { path: String },
    OpenError(String),
    Timeout { timeout_ms: u64 },
    Closed,
    InvalidFormat,
    NotCapturing,
}

/// Outcome of parsing a `ZM <size> <pts>\n` framing header at the start of
/// a buffer.
#[derive(Debug, Clone, Copy, PartialEq, Eq, Structural)]
pub enum ZmFrame {
    /// A complete header of `header_len` bytes; `payload_size` bytes of
    /// Annex B data follow it.
    Complete { header_len: usize, payload_size: usize, pts: i64 },
    /// The buffer holds a valid header prefix but is truncated — read more.
    Incomplete,
    /// The buffer does not begin with a usable header — resync.
    Invalid,
}

/// The `ZM ` marker.
pub open spec fn zm_prefix() -> Seq<u8> {
    seq![0x5au8, 0x4d, 0x20]
}

/// An ASCII digit.
pub open spec fn is_digit(b: u8) -> bool {
    0x30 <= b <= 0x39
}

/// The end of the run of ASCII digits starting at `i`.
pub open spec fn digits_end(buf: Seq<u8>, i: int) -> int
    decreases buf.len() - i,
{
    if 0 <= i < buf.len() && is_digit(buf[i]) {
        digits_end(buf, i + 1)
    } else {
        i
    }
}

/// The value of a string of ASCII digits.
pub open spec fn decimal(s: Seq<u8>) -> nat
    decreases s.len(),
{
    if s.len() == 0 {
        0
    } else {
        decimal(s.drop_last()) * 10 + (s.last() - 0x30) as nat
    }
}

/// The framing header at the start of `buf`: `ZM `, a decimal payload size
/// (a usize), a space, a decimal pts with an optional minus sign (an i64),
/// and a newline. A truncated but so far valid header is `Incomplete`; a
/// payload size of 0 or above [`MAX_NAL_BUF_SIZE`] is `Invalid`.
pub open spec fn spec_parse_zm_frame(buf: Seq<u8>) -> ZmFrame {
    if buf.len() < 3 {
        if zm_prefix().subrange(0, buf.len() as int) == buf { ZmFrame::Incomplete } else { ZmFrame::Invalid }
    } else if buf.subrange(0, 3) != zm_prefix() {
        ZmFrame::Invalid
    } else {
        let j = digits_end(buf, 3);
        if j == buf.len() {
            ZmFrame::Incomplete
        } else if j == 3 || buf[j] != 0x20 {
            ZmFrame::Invalid
        } else if decimal(buf.subrange(3, j)) > usize::MAX {
            ZmFrame::Invalid
        } else {
            let k = j + 1;
            let neg = k < buf.len() && buf[k] == 0x2d;
            let m = if neg { k + 1 } else { k };
            let e = digits_end(buf, m);
            let mag = decimal(buf.subrange(m, e));
            let size = decimal(buf.subrange(3, j));
            if e == buf.len() {
                ZmFrame::Incomplete
            } else if e == m || buf[e] != 0x0a {
                ZmFrame::Invalid
            } else if (neg && mag > 0x8000_0000_0000_0000) || (!neg && mag > 0x7fff_ffff_ffff_ffff) {
                ZmFrame::Invalid
            } else if size == 0 || size > MAX_NAL_BUF_SIZE {
                ZmFrame::Invalid
            } else {
                ZmFrame::Complete {
                    header_len: (e + 1) as usize,
                    payload_size: size as usize,
                    pts: if neg { (0 - mag) as i64 } else { mag as i64 },
                }
            }
        }
    }
}

proof fn lemma_digits_end_bounds(buf: Seq<u8>, i: int)
    requires
        0 <= i <= buf.len(),
    ensures
        i <= digits_end(buf, i) <= buf.len(),
    decreases buf.len() - i,
{
    if 0 <= i < buf.len() && is_digit(buf[i]) {
        lemma_digits_end_bounds(buf, i + 1);
    }
}

proof fn lemma_digits_end_extend(buf: Seq<u8>, x: Seq<u8>, i: int)
    requires
        0 <= i <= buf.len(),
        digits_end(buf, i) < buf.len(),
    ensures
        digits_end(buf + x, i) == digits_end(buf, i),
    decreases buf.len() - i,
{
    assert((buf + x)[i] == buf[i]);
    if is_digit(buf[i]) {
        lemma_digits_end_extend(buf, x, i + 1);
    }
}

/// A complete framing header is decided by its own bytes: whatever follows
/// it in the buffer (any buffer a slice can hold), it parses to the same
/// header. It starts with `ZM `,
/// ends with a newline, and announces a payload of 1 to
/// [`MAX_NAL_BUF_SIZE`] bytes.
pub proof fn lemma_complete_header_is_stable(buf: Seq<u8>, x: Seq<u8>)
    requires
        spec_parse_zm_frame(buf) is Complete,
        buf.len() <= usize::MAX,
    ensures
        spec_parse_zm_frame(buf + x) == spec_parse_zm_frame(buf),
        ({
            let (h, n) = (spec_parse_zm_frame(buf)->header_len, spec_parse_zm_frame(buf)->payload_size);
            &&& buf.subrange(0, 3) == zm_prefix()
            &&& 4 <= h <= buf.len()
            &&& buf[h - 1] == 0x0a
            &&& 1 <= n <= MAX_NAL_BUF_SIZE
        }),
{
    let b2 = buf + x;
    assert(b2.subrange(0, 3) =~= buf.subrange(0, 3));
    let j = digits_end(buf, 3);
    lemma_digits_end_bounds(buf, 3);
    lemma_digits_end_extend(buf, x, 3);
    assert(b2.subrange(3, j) =~= buf.subrange(3, j));
    let k = j + 1;
    let neg = k < buf.len() && buf[k] == 0x2d;
    let m = if neg { k + 1 } else { k };
    assert(k < buf.len());
    assert(b2[k] == buf[k]);
    lemma_digits_end_bounds(buf, m);
    let e = digits_end(buf, m);
    lemma_digits_end_extend(buf, x, m);
    assert(b2.subrange(m, e) =~= buf.subrange(m, e));
    assert(b2[e] == buf[e]);
    assert(b2[j] == buf[j]);
}

proof fn lemma_decimal_push(s: Seq<u8>, b: u8)
    ensures
        decimal(s.push(b)) == decimal(s) * 10 + (b - 0x30) as nat,
{
    assert(s.push(b).drop_last() =~= s);
}

/// Scan the digits starting at `start`: where they end, and their value
/// unless it exceeds `u64::MAX` (then `None`).
fn scan_decimal(buf: &[u8], start: usize) -> (r: (usize, Option<u64>))
    requires
        start <= buf@.len(),
    ensures
        r.0 == digits_end(buf@, start as int),
        start <= r.0 <= buf@.len(),
        match r.1 {
            Some(v) => v == decimal(buf@.subrange(start as int, r.0 as int)),
            None => decimal(buf@.subrange(start as int, r.0 as int)) > u64::MAX,
        },
{
    let mut i = start;
    let mut acc: Option<u64> = Some(0);
    assert(buf@.subrange(start as int, start as int) =~= Seq::<u8>::empty());
    while i < buf.len() && 0x30 <= buf[i] && buf[i] <= 0x39
        invariant
            start <= i <= buf@.len(),
            digits_end(buf@, start as int) == digits_end(buf@, i as int),
            match acc {
                Some(v) => v == decimal(buf@.subrange(start as int, i as int)),
                None => decimal(buf@.subrange(start as int, i as int)) > u64::MAX,
            },
        decreases buf.len() - i,
    {
        let d = (buf[i] - 0x30) as u64;
        proof {
            assert(buf@.subrange(start as int, i + 1) =~= buf@.subrange(start as int, i as int).push(buf@[i as int]));
            lemma_decimal_push(buf@.subrange(start as int, i as int), buf@[i as int]);
        }
        acc = match acc {
            Some(v) => if v <= (u64::MAX - d) / 10 { Some(v * 10 + d) } else { None },
            None => None,
        };
        i += 1;
    }
    (i, acc)
}

/// Parse a ZoneMinder FIFO framing header at the start of `buf`.
pub fn parse_zm_frame(buf: &[u8]) -> (r: ZmFrame)
    ensures
        r == spec_parse_zm_frame(buf@),
{
    let prefix: [u8; 3] = [0x5a, 0x4d, 0x20];
    assert(prefix@ =~= zm_prefix());
    if buf.len() < 3 {
        let mut k: usize = 0;
        while k < buf.len()
            invariant
                buf@.len() < 3,
                k <= buf@.len(),
                prefix@ == zm_prefix(),
                forall|t: int| 0 <= t < k ==> buf@[t] == zm_prefix()[t],
            decreases buf.len() - k,
        {
            if buf[k] != prefix[k] {
                assert(zm_prefix().subrange(0, buf@.len() as int)[k as int] != buf@[k as int]);
                return ZmFrame::Invalid;
            }
            k += 1;
        }
        assert(zm_prefix().subrange(0, buf@.len() as int) =~= buf@);
        return ZmFrame::Incomplete;
    }
    if buf[0] != 0x5a || buf[1] != 0x4d || buf[2] != 0x20 {
        assert(buf@.subrange(0, 3) != zm_prefix()) by {
            if buf@.subrange(0, 3) == zm_prefix() {
                assert(buf@.subrange(0, 3)[0] == buf@[0]);
                assert(buf@.subrange(0, 3)[1] == buf@[1]);
                assert(buf@.subrange(0, 3)[2] == buf@[2]);
            }
        }
        return ZmFrame::Invalid;
    }
    assert(buf@.subrange(0, 3) =~= zm_prefix());
    let (j, size) = scan_decimal(buf, 3);
    if j == buf.len() {
        return ZmFrame::Incomplete;
    }
    if j == 3 || buf[j] != 0x20 {
        return ZmFrame::Invalid;
    }
    let size = match size {
        Some(v) => v,
        None => return ZmFrame::Invalid,
    };
    if size > usize::MAX as u64 {
        return ZmFrame::Invalid;
    }
    let k = j + 1;
    let neg = k < buf.len() && buf[k] == 0x2d;
    let m = if neg { k + 1 } else { k };
    let (e, mag) = scan_decimal(buf, m);
    if e == buf.len() {
        return ZmFrame::Incomplete;
    }
    if e == m || buf[e] != 0x0a {
        return ZmFrame::Invalid;
    }
    let mag = match mag {
        Some(v) => v,
        None => return ZmFrame::Invalid,
    };
    if (neg && mag > 0x8000_0000_0000_0000) || (!neg && mag > 0x7fff_ffff_ffff_ffff) {
        return ZmFrame::Invalid;
    }
    if size == 0 || size > MAX_NAL_BUF_SIZE as u64 {
        return ZmFrame::Invalid;
    }
    let pts: i64 = if neg {
        if mag == 0x8000_0000_0000_0000 { i64::MIN } else { -(mag as i64) }
    } else {
        mag as i64
    };
    ZmFrame::Complete { header_len: e + 1, payload_size: size as usize, pts }
}

/// Resynchronizing a framing buffer: drop bytes up to the next `ZM ` marker
/// after index 0 (so a header that failed to parse is skipped); without one,
/// keep only the last two bytes, so a marker split across two reads
/// survives.
pub open spec fn spec_resync_zm(buf: Seq<u8>) -> (Seq<u8>, bool) {
    match find_from(buf, zm_prefix(), 1) {
        Some(p) => (buf.subrange(p, buf.len() as int), true),
        None => if buf.len() > 2 { (buf.subrange(buf.len() - 2, buf.len() as int), false) } else { (buf, false) },
    }
}

/// Drop bytes until the start of the next `ZM ` framing header. Returns
/// whether one was found (the caller should retry parsing).
pub fn resync_zm(buf: &mut Vec<u8>) -> (r: bool)
    ensures
        (final(buf)@, r) == spec_resync_zm(old(buf)@),
{
    let prefix: [u8; 3] = [0x5a, 0x4d, 0x20];
    assert(prefix@ =~= zm_prefix());
    match find_first_from(buf.as_slice(), prefix.as_slice(), 1) {
        Some(p) => {
            proof {
                crate::wire::lemma_find_from_sound(buf@, zm_prefix(), 1);
            }
            let rest = crate::media::slice_vec(buf.as_slice(), p, buf.len());
            *buf = rest;
            true
        },
        None => {
            if buf.len() > 2 {
                let keep_from = buf.len() - 2;
                let rest = crate::media::slice_vec(buf.as_slice(), keep_from, buf.len());
                *buf = rest;
            }
            false
        },
    }
}

/// The codec a NAL reveals: H.264 by an SPS, PPS or IDR header, H.265 by a
/// VPS, SPS or PPS header, H.264 otherwise (the common case in ZoneMinder);
/// unknown without a start code and header byte.
pub open spec fn spec_detect_codec(nal: Seq<u8>) -> VideoCodec {
    let sc = start_code_len(nal);
    if nal.len() < 5 || sc == 0 || nal.len() <= sc {
        VideoCodec::Unknown
    } else {
        let b = nal[sc];
        let t4 = b & 0x1fu8;
        let t5 = (b >> 1u8) & 0x3fu8;
        if t4 == 7 || t4 == 8 || t4 == 5 {
            VideoCodec::H264
        } else if 32 <= t5 <= 34 {
            VideoCodec::H265
        } else {
            VideoCodec::H264
        }
    }
}

/// Detect the codec from a NAL unit header.
pub fn detect_codec(nal_data: &[u8]) -> (r: VideoCodec)
    ensures
        r == spec_detect_codec(nal_data@),
{
    let sc = leading_start_code_len(nal_data);
    if nal_data.len() < 5 || sc == 0 || nal_data.len() <= sc {
        return VideoCodec::Unknown;
    }
    let b = nal_data[sc];
    let t4 = b & 0x1f;
    let t5 = (b >> 1) & 0x3f;
    if t4 == 7 || t4 == 8 || t4 == 5 {
        VideoCodec::H264
    } else if 32 <= t5 && t5 <= 34 {
        VideoCodec::H265
    } else {
        VideoCodec::H264
    }
}

/// Whether a NAL is a keyframe: H.264 IDR (type 5), H.265 IRAP (types
/// 16..=21); never for a NAL under five bytes or without a start code.
pub open spec fn spec_fifo_is_keyframe(nal: Seq<u8>, codec: VideoCodec) -> bool {
    let sc = start_code_len(nal);
    if nal.len() < 5 || sc == 0 || nal.len() <= sc {
        false
    } else {
        let b = nal[sc];
        match codec {
            VideoCodec::H264 => b & 0x1fu8 == 5,
            VideoCodec::H265 => 16 <= (b >> 1u8) & 0x3fu8 <= 21,
            VideoCodec::Unknown => false,
        }
    }
}

/// Check if a NAL unit is a keyframe.
pub fn is_keyframe(nal_data: &[u8], codec: VideoCodec) -> (r: bool)
    ensures
        r == spec_fifo_is_keyframe(nal_data@, codec),
{
    let sc = leading_start_code_len(nal_data);
    if nal_data.len() < 5 || sc == 0 || nal_data.len() <= sc {
        return false;
    }
    let b = nal_data[sc];
    match codec {
        VideoCodec::H264 => b & 0x1f == 5,
        VideoCodec::H265 => {
            let t = (b >> 1) & 0x3f;
            16 <= t && t <= 21
        },
        VideoCodec::Unknown => false,
    }
}

/// The FIFO read state: bytes still carrying framing, the NALs of the
/// current packet awaiting emission, and the timestamps.
pub struct FramerView {
    pub monitor_id: u32,
    pub codec: VideoCodec,
    /// Accumulated FIFO bytes, still framed.
    pub buf: Seq<u8>,
    /// NALs split from the current packet, not yet emitted.
    pub ready: Seq<Seq<u8>>,
    /// Normalized timestamp (µs) of the current packet.
    pub current_pts_us: i64,
    /// The first pts seen; later ones count from it.
    pub base_pts_us: Option<i64>,
}

/// The value of a [`FifoPacket`].
pub struct PacketView {
    pub monitor_id: u32,
    pub timestamp_us: i64,
    pub data: Seq<u8>,
    pub is_keyframe: bool,
    pub codec: VideoCodec,
}

impl View for FifoPacket {
    type V = PacketView;

    open spec fn view(&self) -> PacketView {
        PacketView {
            monitor_id: self.monitor_id,
            timestamp_us: self.timestamp_us,
            data: self.data@,
            is_keyframe: self.is_keyframe,
            codec: self.codec,
        }
    }
}

/// `a - b` clamped to the range of `i64`.
pub open spec fn i64_sat_sub(a: i64, b: i64) -> i64 {
    let d = a - b;
    if d > i64::MAX { i64::MAX } else if d < i64::MIN { i64::MIN } else { d as i64 }
}

/// Emitting the next NAL of the current packet: the first NAL of a stream
/// of unknown codec determines it.
pub open spec fn spec_emit(v: FramerView) -> (FramerView, PacketView) {
    let nal = v.ready[0];
    let codec = if v.codec == VideoCodec::Unknown { spec_detect_codec(nal) } else { v.codec };
    (
        FramerView { codec, ready: v.ready.drop_first(), ..v },
        PacketView {
            monitor_id: v.monitor_id,
            timestamp_us: v.current_pts_us,
            data: nal,
            is_keyframe: spec_fifo_is_keyframe(nal, codec),
            codec,
        },
    )
}

/// Resynchronizing never grows the buffer, and shrinks it when a marker is
/// found or more than two bytes are held.
pub proof fn lemma_resync_shrinks(buf: Seq<u8>)
    ensures
        spec_resync_zm(buf).0.len() <= buf.len(),
        spec_resync_zm(buf).1 ==> spec_resync_zm(buf).0.len() < buf.len(),
        buf.len() > 2 ==> spec_resync_zm(buf).0.len() < buf.len(),
{
    crate::wire::lemma_find_from_sound(buf, zm_prefix(), 1);
}

/// The next packet the FIFO bytes yield, and the state after it: a pending
/// NAL of the current packet first; otherwise the next framed packet is
/// consumed (its pts normalized against the first one seen) and split into
/// NALs. A header not followed by the next `ZM` marker (when bytes follow)
/// was a false match inside payload data and is skipped. `None` means more
/// bytes are needed.
pub open spec fn spec_framer_next(v: FramerView) -> (FramerView, Option<PacketView>)
    decreases v.buf.len(), if v.ready.len() > 0 { 0int } else { 1int },
{
    if v.ready.len() > 0 {
        let (v2, p) = spec_emit(v);
        (v2, Some(p))
    } else {
        match spec_parse_zm_frame(v.buf) {
            ZmFrame::Complete { header_len, payload_size, pts } => {
                let total = header_len + payload_size;
                if v.buf.len() < total {
                    (v, None)
                } else if v.buf.len() > total && v.buf[total] != 0x5a {
                    proof {
                        lemma_resync_shrinks(v.buf);
                    }
                    spec_framer_next(FramerView { buf: spec_resync_zm(v.buf).0, ..v })
                } else {
                    let base = match v.base_pts_us { Some(b) => b, None => pts };
                    spec_framer_next(FramerView {
                        buf: v.buf.subrange(total, v.buf.len() as int),
                        ready: spec_split_annexb_nals(v.buf.subrange(header_len as int, total)),
                        current_pts_us: i64_sat_sub(pts, base),
                        base_pts_us: Some(base),
                        ..v
                    })
                }
            },
            ZmFrame::Incomplete => (v, None),
            ZmFrame::Invalid => {
                let (b2, found) = spec_resync_zm(v.buf);
                if found {
                    proof {
                        lemma_resync_shrinks(v.buf);
                    }
                    spec_framer_next(FramerView { buf: b2, ..v })
                } else {
                    (FramerView { buf: b2, ..v }, None)
                }
            },
        }
    }
}

/// Appending bytes read from the FIFO; a buffer grown past twice the largest
/// packet (a corrupt stream without usable markers) is reset.
pub open spec fn spec_framer_feed(v: FramerView, data: Seq<u8>) -> FramerView {
    let b = v.buf + data;
    if b.len() > 2 * MAX_NAL_BUF_SIZE {
        FramerView { buf: seq![], ready: seq![], ..v }
    } else {
        FramerView { buf: b, ..v }
    }
}

/// Parses the FIFO byte stream into NAL packets.
pub struct ZmFramer {
    monitor_id: u32,
    codec: VideoCodec,
    buf: Vec<u8>,
    ready: Vec<Vec<u8>>,
    ready_pos: usize,
    current_pts_us: i64,
    base_pts_us: Option<i64>,
}

impl View for ZmFramer {
    type V = FramerView;

    closed spec fn view(&self) -> FramerView {
        FramerView {
            monitor_id: self.monitor_id,
            codec: self.codec,
            buf: self.buf@,
            ready: self.ready@.map_values(|n: Vec<u8>| n@).subrange(self.ready_pos as int, self.ready@.len() as int),
            current_pts_us: self.current_pts_us,
            base_pts_us: self.base_pts_us,
        }
    }
}

impl ZmFramer {
    /// The read-position invariant.
    pub closed spec fn wf(&self) -> bool {
        self.ready_pos <= self.ready@.len()
    }

    /// A framer with nothing read yet, for a monitor whose codec may already
    /// be known (from the FIFO's file name).
    pub fn new(monitor_id: u32, codec: VideoCodec) -> (r: Self)
        ensures
            r.wf(),
            r@ == (FramerView { monitor_id, codec, buf: seq![], ready: seq![], current_pts_us: 0, base_pts_us: None }),
    {
        let r = ZmFramer { monitor_id, codec, buf: Vec::new(), ready: Vec::new(), ready_pos: 0, current_pts_us: 0, base_pts_us: None };
        assert(r@.buf =~= Seq::<u8>::empty());
        assert(r@.ready =~= Seq::<Seq<u8>>::empty());
        r
    }

    /// The current codec.
    pub fn codec(&self) -> (r: VideoCodec)
        ensures
            r == self@.codec,
    {
        self.codec
    }

    /// Append bytes read from the FIFO.
    pub fn feed(&mut self, data: &[u8])
        requires
            old(self).wf(),
        ensures
            final(self).wf(),
            final(self)@ == spec_framer_feed(old(self)@, data@),
    {
        put_slice(&mut self.buf, data);
        if self.buf.len() > 2 * MAX_NAL_BUF_SIZE {
            self.buf = Vec::new();
            self.ready = Vec::new();
            self.ready_pos = 0;
            assert(self@.buf =~= Seq::<u8>::empty());
            assert(self@.ready =~= Seq::<Seq<u8>>::empty());
        }
    }

    fn emit(&mut self) -> (r: FifoPacket)
        requires
            old(self).wf(),
            old(self)@.ready.len() > 0,
        ensures
            final(self).wf(),
            (final(self)@, r@) == spec_emit(old(self)@),
    {
        let nal = to_vec(self.ready[self.ready_pos].as_slice());
        if self.codec == VideoCodec::Unknown {
            self.codec = detect_codec(nal.as_slice());
        }
        let key = is_keyframe(nal.as_slice(), self.codec);
        assert(self.ready_pos < self.ready@.len());
        if self.ready_pos < self.ready.len() {
            self.ready_pos = self.ready_pos + 1;
        }
        proof {
            assert(self@.ready =~= old(self)@.ready.drop_first());
        }
        FifoPacket { monitor_id: self.monitor_id, timestamp_us: self.current_pts_us, data: nal, is_keyframe: key, codec: self.codec }
    }

    /// The next NAL packet, or `None` when more FIFO bytes are needed.
    pub fn next_packet(&mut self) -> (r: Option<FifoPacket>)
        requires
            old(self).wf(),
        ensures
            final(self).wf(),
            (final(self)@, match r { Some(p) => Some(p@), None => None::<PacketView> }) == spec_framer_next(old(self)@),
    {
        if self.ready_pos < self.ready.len() {
            return Some(self.emit());
        }
        loop
            invariant
                self.wf(),
                self@.ready.len() == 0,
                spec_framer_next(old(self)@) == spec_framer_next(self@),
            decreases self@.buf.len(),
        {
            let ghost v0 = self@;
            match parse_zm_frame(self.buf.as_slice()) {
                ZmFrame::Complete { header_len, payload_size, pts } => {
                    if (self.buf.len() as u128) < header_len as u128 + payload_size as u128 {
                        return None;
                    }
                    let total = header_len + payload_size;
                    if self.buf.len() > total && self.buf[total] != 0x5a {
                        proof {
                            lemma_resync_shrinks(self@.buf);
                        }
                        resync_zm(&mut self.buf);
                        continue;
                    }
                    let body = crate::media::slice_vec(self.buf.as_slice(), header_len, total);
                    let rest = crate::media::slice_vec(self.buf.as_slice(), total, self.buf.len());
                    self.buf = rest;
                    let base = match self.base_pts_us {
                        Some(b) => b,
                        None => {
                            self.base_pts_us = Some(pts);
                            pts
                        },
                    };
                    let d = pts as i128 - base as i128;
                    self.current_pts_us = if d > i64::MAX as i128 {
                        i64::MAX
                    } else if d < i64::MIN as i128 {
                        i64::MIN
                    } else {
                        d as i64
                    };
                    self.ready = split_annexb_nals(body);
                    self.ready_pos = 0;
                    proof {
                        assert(self@.ready =~= self.ready@.map_values(|n: Vec<u8>| n@));
                        assert(self@ == (FramerView {
                            buf: v0.buf.subrange(total as int, v0.buf.len() as int),
                            ready: spec_split_annexb_nals(v0.buf.subrange(header_len as int, total as int)),
                            current_pts_us: i64_sat_sub(pts, base),
                            base_pts_us: Some(base),
                            ..v0
                        }));
                        assert(spec_framer_next(v0) == spec_framer_next(self@));
                    }
                    if self.ready.len() > 0 {
                        return Some(self.emit());
                    }
                },
                ZmFrame::Incomplete => {
                    return None;
                },
                ZmFrame::Invalid => {
                    proof {
                        lemma_resync_shrinks(self@.buf);
                    }
                    if !resync_zm(&mut self.buf) {
                        return None;
                    }
                },
            }
        }
    }
}

} // verus!

verus! {

/// Whether the configuration uses ZoneMinder's newer FIFO layout
/// (`{base}/video_fifo_{id}.{codec}`) rather than `{base}/{id}{suffix}`:
/// its base path is `/run/zm` or its video suffix starts with
/// `/video_fifo_`.
pub open spec fn spec_is_new_fifo_format(config: ZoneMinderConfig) -> bool {
    config.fifo_base_path@ == "/run/zm"@
        || (config.video_fifo_suffix@.len() >= 12 && config.video_fifo_suffix@.subrange(0, 12) == "/video_fifo_"@)
}

/// The video FIFO candidates of the newer layout, in the order they are
/// tried: `.h264` (H.264), `.hevc` and `.h265` (H.265).
pub open spec fn video_fifo_candidate(base: Seq<char>, monitor_id: u32, k: int) -> (Seq<char>, VideoCodec) {
    let stem = "video_fifo_"@ + decimal_chars(monitor_id as nat);
    if k == 0 {
        (path_join(base, stem + ".h264"@), VideoCodec::H264)
    } else if k == 1 {
        (path_join(base, stem + ".hevc"@), VideoCodec::H265)
    } else {
        (path_join(base, stem + ".h265"@), VideoCodec::H265)
    }
}

/// The audio FIFO candidates of the newer layout: `.aac`, then `.pcm_alaw`.
pub open spec fn audio_fifo_candidate(base: Seq<char>, monitor_id: u32, k: int) -> Seq<char> {
    let stem = "audio_fifo_"@ + decimal_chars(monitor_id as nat);
    if k == 0 {
        path_join(base, stem + ".aac"@)
    } else {
        path_join(base, stem + ".pcm_alaw"@)
    }
}

/// The first index below `n` whose entry of `exists` is set.
pub open spec fn first_set(exists: Seq<bool>, n: int) -> Option<int>
    decreases n,
{
    if n <= 0 {
        None
    } else {
        match first_set(exists, n - 1) {
            Some(i) => Some(i),
            None => if n - 1 < exists.len() && exists[n - 1] { Some(n - 1) } else { None },
        }
    }
}

/// Where a monitor's FIFOs are and which codec the video one carries.
#[derive(Debug, Clone, PartialEq, Eq)]
pub struct FifoPaths {
    pub video_path: String,
    pub audio_path: Option<String>,
    pub codec: VideoCodec,
}

/// The FIFO paths of a monitor. In the newer layout the first existing
/// video candidate is taken, and its extension gives the codec; with none
/// the `.h264` path is used and the codec stays unknown. Audio, when an
/// audio suffix is configured, is the first existing candidate, else the
/// `.aac` path. In the older layout the paths are `{base}/{id}{suffix}`.
/// `video_exists` and `audio_exists` tell which candidates exist.
pub open spec fn spec_fifo_paths(
    config: ZoneMinderConfig,
    monitor_id: u32,
    video_exists: Seq<bool>,
    audio_exists: Seq<bool>,
) -> (Seq<char>, Option<Seq<char>>, VideoCodec) {
    let base = config.fifo_base_path@;
    if spec_is_new_fifo_format(config) {
        let (video, codec) = match first_set(video_exists, 3) {
            Some(k) => video_fifo_candidate(base, monitor_id, k),
            None => (video_fifo_candidate(base, monitor_id, 0).0, VideoCodec::Unknown),
        };
        let audio = if config.audio_fifo_suffix@.len() == 0 {
            None
        } else {
            match first_set(audio_exists, 2) {
                Some(k) => Some(audio_fifo_candidate(base, monitor_id, k)),
                None => Some(audio_fifo_candidate(base, monitor_id, 0)),
            }
        };
        (video, audio, codec)
    } else {
        let id = decimal_chars(monitor_id as nat);
        (
            path_join(base, id + config.video_fifo_suffix@),
            if config.audio_fifo_suffix@.len() == 0 {
                None
            } else {
                Some(path_join(base, id + config.audio_fifo_suffix@))
            },
            VideoCodec::Unknown,
        )
    }
}

/// Whether `s` begins with `prefix`.
fn str_starts_with(s: &str, prefix: &str) -> (r: bool)
    ensures
        r == (prefix@.len() <= s@.len() && s@.subrange(0, prefix@.len() as int) == prefix@),
{
    let n = prefix.unicode_len();
    if n > s.unicode_len() {
        return false;
    }
    let mut i: usize = 0;
    while i < n
        invariant
            n == prefix@.len(),
            n <= s@.len(),
            i <= n,
            forall|j: int| 0 <= j < i ==> s@[j] == prefix@[j],
        decreases n - i,
    {
        if s.get_char(i) != prefix.get_char(i) {
            assert(s@.subrange(0, n as int)[i as int] != prefix@[i as int]);
            return false;
        }
        i = i + 1;
    }
    assert(s@.subrange(0, n as int) =~= prefix@);
    true
}

/// Whether the configuration uses the newer FIFO layout
/// (see [`spec_is_new_fifo_format`]).
pub fn is_new_fifo_format(config: &ZoneMinderConfig) -> (r: bool)
    ensures
        r == spec_is_new_fifo_format(*config),
{
    proof {
        reveal_strlit("/video_fifo_");
        reveal_strlit("/run/zm");
    }
    let base = config.fifo_base_path.as_str();
    let p = str_starts_with(base, "/run/zm");
    let same_len = base.unicode_len() == "/run/zm".unicode_len();
    let a = p && same_len;
    proof {
        if a {
            assert(config.fifo_base_path@ =~= "/run/zm"@);
        }
        if config.fifo_base_path@ == "/run/zm"@ {
            assert(config.fifo_base_path@.subrange(0, 7) =~= "/run/zm"@);
        }
    }
    let b = str_starts_with(config.video_fifo_suffix.as_str(), "/video_fifo_");
    assert("/video_fifo_"@.len() == 12);
    a || b
}

/// `name` built as `prefix{monitor_id}ext`, joined under `base`.
fn fifo_name(base: &str, prefix: &str, monitor_id: u32, ext: &str) -> (r: String)
    ensures
        r@ == path_join(base@, prefix@ + decimal_chars(monitor_id as nat) + ext@),
{
    let mut name = String::new();
    push_str(&mut name, prefix);
    push_decimal(&mut name, monitor_id as u64);
    push_str(&mut name, ext);
    assert(name@ =~= prefix@ + decimal_chars(monitor_id as nat) + ext@);
    join_path(base, &name)
}

/// The video FIFO candidates of the newer layout, in order
/// (see [`video_fifo_candidate`]).
pub fn video_fifo_candidates(config: &ZoneMinderConfig, monitor_id: u32) -> (r: Vec<(String, VideoCodec)>)
    ensures
        r@.len() == 3,
        forall|k: int| 0 <= k < 3 ==> (r@[k].0@, r@[k].1) == video_fifo_candidate(config.fifo_base_path@, monitor_id, k),
{
    let base = config.fifo_base_path.as_str();
    let mut r: Vec<(String, VideoCodec)> = Vec::new();
    r.push((fifo_name(base, "video_fifo_", monitor_id, ".h264"), VideoCodec::H264));
    r.push((fifo_name(base, "video_fifo_", monitor_id, ".hevc"), VideoCodec::H265));
    r.push((fifo_name(base, "video_fifo_", monitor_id, ".h265"), VideoCodec::H265));
    r
}

/// The audio FIFO candidates of the newer layout, in order
/// (see [`audio_fifo_candidate`]).
pub fn audio_fifo_candidates(config: &ZoneMinderConfig, monitor_id: u32) -> (r: Vec<String>)
    ensures
        r@.len() == 2,
        forall|k: int| 0 <= k < 2 ==> r@[k]@ == audio_fifo_candidate(config.fifo_base_path@, monitor_id, k),
{
    let base = config.fifo_base_path.as_str();
    let mut r: Vec<String> = Vec::new();
    r.push(fifo_name(base, "audio_fifo_", monitor_id, ".aac"));
    r.push(fifo_name(base, "audio_fifo_", monitor_id, ".pcm_alaw"));
    r
}

/// The first set entry among the first `n` of `exists`.
fn first_existing(exists: &[bool], n: usize) -> (r: Option<usize>)
    ensures
        match r {
            Some(i) => first_set(exists@, n as int) == Some(i as int) && i < n,
            None => first_set(exists@, n as int) is None,
        },
{
    let mut i: usize = 0;
    while i < n
        invariant
            i <= n,
            first_set(exists@, i as int) is None,
        decreases n - i,
    {
        if i < exists.len() && exists[i] {
            assert(first_set(exists@, i as int + 1) == Some(i as int));
            proof {
                lemma_first_set_stable(exists@, i as int + 1, n as int);
            }
            return Some(i);
        }
        i = i + 1;
    }
    None
}

/// Once an entry is found, looking further does not change it.
proof fn lemma_first_set_stable(exists: Seq<bool>, m: int, n: int)
    requires
        m <= n,
        first_set(exists, m) is Some,
    ensures
        first_set(exists, n) == first_set(exists, m),
    decreases n - m,
{
    if m < n {
        lemma_first_set_stable(exists, m, n - 1);
    }
}

/// The FIFO paths of a monitor (see [`spec_fifo_paths`]).
pub fn fifo_paths(config: &ZoneMinderConfig, monitor_id: u32, video_exists: &[bool], audio_exists: &[bool]) -> (r: FifoPaths)
    ensures
        (r.video_path@, match r.audio_path {
            Some(a) => Some(a@),
            None => None,
        }, r.codec) == spec_fifo_paths(*config, monitor_id, video_exists@, audio_exists@),
{
    let base = config.fifo_base_path.as_str();
    if is_new_fifo_format(config) {
        let mut videos = video_fifo_candidates(config, monitor_id);
        let (video_path, codec) = match first_existing(video_exists, 3) {
            Some(k) => {
                let (p, c) = videos.remove(k);
                (p, c)
            },
            None => {
                let (p, _c) = videos.remove(0);
                (p, VideoCodec::Unknown)
            },
        };
        let audio_path = if config.audio_fifo_suffix.as_str().unicode_len() == 0 {
            None
        } else {
            let mut audios = audio_fifo_candidates(config, monitor_id);
            match first_existing(audio_exists, 2) {
                Some(k) => Some(audios.remove(k)),
                None => Some(audios.remove(0)),
            }
        };
        FifoPaths { video_path, audio_path, codec }
    } else {
        let video_path = fifo_name(base, "", monitor_id, config.video_fifo_suffix.as_str());
        proof {
            reveal_strlit("");
            assert(""@ + decimal_chars(monitor_id as nat) + config.video_fifo_suffix@
                =~= decimal_chars(monitor_id as nat) + config.video_fifo_suffix@);
            assert(""@ + decimal_chars(monitor_id as nat) + config.audio_fifo_suffix@
                =~= decimal_chars(monitor_id as nat) + config.audio_fifo_suffix@);
        }
        let audio_path = if config.audio_fifo_suffix.as_str().unicode_len() == 0 {
            None
        } else {
            Some(fifo_name(base, "", monitor_id, config.audio_fifo_suffix.as_str()))
        };
        FifoPaths { video_path, audio_path, codec: VideoCodec::Unknown }
    }
}

} // verus!
