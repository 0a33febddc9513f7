//! Media types and bitstream helpers shared across the streaming pipeline:
//! packet types, Annex B NAL inspection and splitting, ADTS framing and
//! avcC/hvcC decoder-configuration parsing.

use vstd::prelude::*;
use crate::wire::{has_prefix, put_slice, starts_with, to_vec};

verus! {

/// Video codec of a monitor's stream.
#[derive(Debug, Clone, Copy, PartialEq, Eq, Structural)]
pub enum VideoCodec {
    H264,
    H265,
    Unknown,
}

impl VideoCodec {
    /// Display name of the codec.
    pub fn as_str(&self) -> (r: &'static str)
        ensures
            r@ == spec_video_codec_name(*self),
    {
        match self {
            VideoCodec::H264 => "H264",
            VideoCodec::H265 => "H265",
            VideoCodec::Unknown => "Unknown",
        }
    }
}

/// The display name of a video codec.
pub open spec fn spec_video_codec_name(c: VideoCodec) -> Seq<char> {
    match c {
        VideoCodec::H264 => "H264"@,
        VideoCodec::H265 => "H265"@,
        VideoCodec::Unknown => "Unknown"@,
    }
}

impl Default for VideoCodec {
    fn default() -> (r: Self)
        ensures
            r == VideoCodec::Unknown,
    {
        VideoCodec::Unknown
    }
}

/// One video NAL unit (Annex B, with start code) from a monitor's stream.
/// Every NAL split from one access unit shares that unit's timestamp.
#[derive(Debug, Clone)]
pub struct VideoPacket {
    pub monitor_id: u32,
    pub timestamp_us: i64,
    pub data: Vec<u8>,
    pub is_keyframe: bool,
    pub codec: VideoCodec,
}

/// Audio codec types.
#[derive(Debug, Clone, Copy, PartialEq, Eq, Structural)]
pub enum AudioCodec {
    Aac,
    G711Alaw,
    G711Ulaw,
    Opus,
    Unknown,
}

impl AudioCodec {
    /// Display name of the codec.
    pub fn as_str(&self) -> (r: &'static str)
        ensures
            r@ == spec_audio_codec_name(*self),
    {
        match self {
            AudioCodec::Aac => "AAC",
            AudioCodec::G711Alaw => "G.711 A-law",
            AudioCodec::G711Ulaw => "G.711 u-law",
            AudioCodec::Opus => "Opus",
            AudioCodec::Unknown => "Unknown",
        }
    }
}

/// The display name of an audio codec.
pub open spec fn spec_audio_codec_name(c: AudioCodec) -> Seq<char> {
    match c {
        AudioCodec::Aac => "AAC"@,
        AudioCodec::G711Alaw => "G.711 A-law"@,
        AudioCodec::G711Ulaw => "G.711 u-law"@,
        AudioCodec::Opus => "Opus"@,
        AudioCodec::Unknown => "Unknown"@,
    }
}

/// One audio frame from a monitor's stream (ADTS-framed AAC, or a raw
/// G.711 / Opus payload).
#[derive(Debug, Clone)]
pub struct AudioPacket {
    pub monitor_id: u32,
    pub timestamp_us: i64,
    pub data: Vec<u8>,
    pub codec: AudioCodec,
}

/// The value of a [`VideoPacket`].
pub struct VideoPacketView {
    pub monitor_id: u32,
    pub timestamp_us: i64,
    pub data: Seq<u8>,
    pub is_keyframe: bool,
    pub codec: VideoCodec,
}

impl View for VideoPacket {
    type V = VideoPacketView;

    open spec fn view(&self) -> VideoPacketView {
        VideoPacketView {
            monitor_id: self.monitor_id,
            timestamp_us: self.timestamp_us,
            data: self.data@,
            is_keyframe: self.is_keyframe,
            codec: self.codec,
        }
    }
}

/// The value of an [`AudioPacket`].
pub struct AudioPacketView {
    pub monitor_id: u32,
    pub timestamp_us: i64,
    pub data: Seq<u8>,
    pub codec: AudioCodec,
}

impl View for AudioPacket {
    type V = AudioPacketView;

    open spec fn view(&self) -> AudioPacketView {
        AudioPacketView { monitor_id: self.monitor_id, timestamp_us: self.timestamp_us, data: self.data@, codec: self.codec }
    }
}

// ---------------------------------------------------------------------------
// Start codes and NAL headers
// ---------------------------------------------------------------------------

/// Length of the Annex B start code that `s` opens with: 4 for
/// `00 00 00 01`, 3 for `00 00 01`, 0 when there is none.
pub open spec fn start_code_len(s: Seq<u8>) -> int {
    if has_prefix(s, seq![0u8, 0u8, 0u8, 1u8]) {
        4
    } else if has_prefix(s, seq![0u8, 0u8, 1u8]) {
        3
    } else {
        0
    }
}

/// Exec form of [`start_code_len`].
pub fn leading_start_code_len(data: &[u8]) -> (r: usize)
    ensures
        r == start_code_len(data@),
{
    if data.len() >= 4 && data[0] == 0 && data[1] == 0 && data[2] == 0 && data[3] == 1 {
        assert(data@.subrange(0, 4) =~= seq![0u8, 0u8, 0u8, 1u8]);
        4
    } else if data.len() >= 3 && data[0] == 0 && data[1] == 0 && data[2] == 1 {
        assert(data@.subrange(0, 3) =~= seq![0u8, 0u8, 1u8]);
        proof {
            if has_prefix(data@, seq![0u8, 0u8, 0u8, 1u8]) {
                assert(data@.subrange(0, 4)[2] == data@[2]);
            }
        }
        3
    } else {
        proof {
            if has_prefix(data@, seq![0u8, 0u8, 0u8, 1u8]) {
                assert(data@.subrange(0, 4)[0] == data@[0]);
                assert(data@.subrange(0, 4)[1] == data@[1]);
                assert(data@.subrange(0, 4)[2] == data@[2]);
                assert(data@.subrange(0, 4)[3] == data@[3]);
            }
            if has_prefix(data@, seq![0u8, 0u8, 1u8]) {
                assert(data@.subrange(0, 3)[0] == data@[0]);
                assert(data@.subrange(0, 3)[1] == data@[1]);
                assert(data@.subrange(0, 3)[2] == data@[2]);
            }
        }
        0
    }
}

/// The H.264 NAL unit type of an Annex B NAL (low 5 bits of the header
/// byte), or `None` without a start code or header byte.
pub open spec fn spec_h264_nal_type(s: Seq<u8>) -> Option<u8> {
    let sc = start_code_len(s);
    if sc == 0 || s.len() <= sc {
        None
    } else {
        Some(s[sc] & 0x1fu8)
    }
}

/// The H.265 NAL unit type of an Annex B NAL (bits 1..6 of the first
/// header byte), or `None` without a start code or header byte.
pub open spec fn spec_h265_nal_type(s: Seq<u8>) -> Option<u8> {
    let sc = start_code_len(s);
    if sc == 0 || s.len() <= sc {
        None
    } else {
        Some((s[sc] >> 1u8) & 0x3fu8)
    }
}

/// Return the H.264 NAL unit type (bits 0-4 of the first byte after the
/// start code). Accepts 3- and 4-byte start codes.
pub fn h264_nal_type(nal_data: &[u8]) -> (r: Option<u8>)
    ensures
        r == spec_h264_nal_type(nal_data@),
{
    let offset = leading_start_code_len(nal_data);
    if offset == 0 || nal_data.len() <= offset {
        None
    } else {
        Some(nal_data[offset] & 0x1f)
    }
}

/// Return the H.265 NAL unit type (bits 1-6 of the first header byte).
/// VPS = 32, SPS = 33, PPS = 34.
pub fn h265_nal_type(nal_data: &[u8]) -> (r: Option<u8>)
    ensures
        r == spec_h265_nal_type(nal_data@),
{
    let offset = leading_start_code_len(nal_data);
    if offset == 0 || nal_data.len() <= offset {
        None
    } else {
        Some((nal_data[offset] >> 1) & 0x3f)
    }
}

/// Whether an Annex B NAL is a keyframe slice: H.264 IDR (type 5), H.265
/// IRAP (types 16..=21).
pub open spec fn spec_nal_is_keyframe(s: Seq<u8>, codec: VideoCodec) -> bool {
    match codec {
        VideoCodec::H264 => spec_h264_nal_type(s) == Some(5u8),
        VideoCodec::H265 => match spec_h265_nal_type(s) {
            Some(t) => 16 <= t <= 21,
            None => false,
        },
        VideoCodec::Unknown => false,
    }
}

/// Whether a NAL unit is a keyframe slice.
pub fn nal_is_keyframe(nal_data: &[u8], codec: VideoCodec) -> (r: bool)
    ensures
        r == spec_nal_is_keyframe(nal_data@, codec),
{
    match codec {
        VideoCodec::H264 => h264_nal_type(nal_data) == Some(5u8),
        VideoCodec::H265 => match h265_nal_type(nal_data) {
            Some(t) => 16 <= t && t <= 21,
            None => false,
        },
        VideoCodec::Unknown => false,
    }
}

/// Whether a VCL NAL begins a new coded picture: the MSB of the first
/// slice-header byte (after a 1-byte H.264 / 2-byte H.265 NAL header) is set.
/// Without a start code, or when that byte is missing, the answer is `true`.
pub open spec fn spec_slice_starts_picture(s: Seq<u8>, codec: VideoCodec) -> bool {
    let sc = start_code_len(s);
    let hdr: int = match codec {
        VideoCodec::H265 => 2,
        _ => 1,
    };
    if sc == 0 {
        true
    } else if sc + hdr < s.len() {
        s[sc + hdr] & 0x80u8 != 0
    } else {
        true
    }
}

/// Returns `true` if a VCL NAL unit begins a new primary coded picture
/// (first slice of the picture), judged from the first slice-header bit.
pub fn slice_starts_picture(nal_data: &[u8], codec: VideoCodec) -> (r: bool)
    ensures
        r == spec_slice_starts_picture(nal_data@, codec),
{
    let start_code_len = leading_start_code_len(nal_data);
    if start_code_len == 0 {
        return true;
    }
    let nal_header_len: usize = match codec {
        VideoCodec::H265 => 2,
        _ => 1,
    };
    if start_code_len + nal_header_len < nal_data.len() {
        nal_data[start_code_len + nal_header_len] & 0x80 != 0
    } else {
        true
    }
}

/// Lower-case hexadecimal digit of a nibble.
pub open spec fn hex_digit(n: u8) -> char {
    if n < 10 {
        (48 + n) as char
    } else {
        (87 + n) as char
    }
}

/// Two lower-case hexadecimal digits of a byte.
pub open spec fn hex_byte(b: u8) -> Seq<char> {
    seq![hex_digit(b >> 4u8), hex_digit(b & 0x0fu8)]
}

/// The profile-level-id of an H.264 SPS NAL: the hex of the three bytes
/// after its NAL header, or `None` when the NAL is not an SPS or too short.
pub open spec fn spec_profile_level_id(s: Seq<u8>) -> Option<Seq<char>> {
    let sc = start_code_len(s);
    if sc == 0 || s.len() < sc + 4 || s[sc] & 0x1fu8 != 7 {
        None
    } else {
        Some(hex_byte(s[sc + 1]) + hex_byte(s[sc + 2]) + hex_byte(s[sc + 3]))
    }
}

/// Appends a character to a string.
#[verifier::external_body]
pub(crate) fn string_push(s: &mut String, c: char)
    ensures
        final(s)@ == old(s)@.push(c),
{
    s.push(c);
}

fn push_hex_digit(s: &mut String, n: u8)
    requires
        n < 16,
    ensures
        final(s)@ == old(s)@.push(hex_digit(n)),
{
    let c: char = if n < 10 {
        (48u8 + n) as char
    } else {
        (87u8 + n) as char
    };
    string_push(s, c);
}

/// Appends the two hex digits of a byte.
pub(crate) fn push_hex_byte(s: &mut String, b: u8)
    ensures
        final(s)@ == old(s)@ + hex_byte(b),
{
    assert((b >> 4u8) < 16 && (b & 0x0fu8) < 16) by (bit_vector);
    push_hex_digit(s, b >> 4);
    push_hex_digit(s, b & 0x0f);
    assert(s@ =~= old(s)@ + hex_byte(b));
}

/// Extract `profile-level-id` from an H.264 SPS NAL unit: six lower-case
/// hex digits of profile_idc, constraint flags and level_idc.
pub fn extract_profile_level_id(nal_data: &[u8]) -> (r: Option<String>)
    ensures
        match r {
            Some(s) => spec_profile_level_id(nal_data@) == Some(s@),
            None => spec_profile_level_id(nal_data@) is None,
        },
{
    let offset = leading_start_code_len(nal_data);
    if offset == 0 || nal_data.len() < offset + 4 {
        return None;
    }
    if nal_data[offset] & 0x1f != 7 {
        return None;
    }
    let mut s = String::new();
    push_hex_byte(&mut s, nal_data[offset + 1]);
    push_hex_byte(&mut s, nal_data[offset + 2]);
    push_hex_byte(&mut s, nal_data[offset + 3]);
    assert(s@ =~= hex_byte(nal_data@[offset + 1]) + hex_byte(nal_data@[offset + 2]) + hex_byte(nal_data@[offset + 3]));
    Some(s)
}

// ---------------------------------------------------------------------------
// Start-code search and Annex B splitting
// ---------------------------------------------------------------------------

/// `00 00` at `i`.
pub open spec fn zero_pair_at(b: Seq<u8>, i: int) -> bool {
    b[i] == 0 && b[i + 1] == 0
}

/// Scan `b` from index `i` for the first Annex B start code, for a search
/// that began at `from`. A `00 00 01` preceded by a zero inside the searched
/// range is reported as the 4-byte code one position earlier.
pub open spec fn find_sc_from(b: Seq<u8>, from: int, i: int) -> Option<(int, int)>
    decreases b.len() - i,
{
    if i < 0 || i + 2 >= b.len() {
        None
    } else if zero_pair_at(b, i) && b[i + 2] == 1 {
        if i > 0 && b[i - 1] == 0 && i > from {
            Some((i - 1, 4))
        } else {
            Some((i, 3))
        }
    } else if zero_pair_at(b, i) && i + 3 < b.len() && b[i + 2] == 0 && b[i + 3] == 1 {
        Some((i, 4))
    } else {
        find_sc_from(b, from, i + 1)
    }
}

/// The first start code at or after `from`: its position and length.
pub open spec fn spec_find_start_code(b: Seq<u8>, from: int) -> Option<(int, int)> {
    if b.len() < from + 3 {
        None
    } else {
        find_sc_from(b, from, from)
    }
}

/// A start code found by the scan lies within the buffer, at or after `from`,
/// and has length 3 or 4.
pub proof fn lemma_find_sc_bounds(b: Seq<u8>, from: int, i: int)
    requires
        0 <= from <= i,
    ensures
        find_sc_from(b, from, i) matches Some((p, l)) ==> from <= p && (l == 3 || l == 4) && p + l <= b.len(),
    decreases b.len() - i,
{
    if i < 0 || i + 2 >= b.len() {
    } else if zero_pair_at(b, i) && b[i + 2] == 1 {
    } else if zero_pair_at(b, i) && i + 3 < b.len() && b[i + 2] == 0 && b[i + 3] == 1 {
    } else {
        lemma_find_sc_bounds(b, from, i + 1);
    }
}

/// Find an Annex B start code in `buf` starting at position `from`.
/// Returns `(position, start_code_length)` where the length is 3 or 4.
pub fn find_start_code(buf: &[u8], from: usize) -> (r: Option<(usize, usize)>)
    ensures
        match r {
            Some((p, l)) => spec_find_start_code(buf@, from as int) == Some((p as int, l as int)),
            None => spec_find_start_code(buf@, from as int) is None,
        },
{
    if buf.len() < 3 || from > buf.len() - 3 {
        return None;
    }
    let mut i = from;
    while i < buf.len() - 2
        invariant
            from <= i,
            from + 3 <= buf.len(),
            find_sc_from(buf@, from as int, from as int) == find_sc_from(buf@, from as int, i as int),
        decreases buf.len() - i,
    {
        if buf[i] == 0 && buf[i + 1] == 0 {
            if buf[i + 2] == 1 {
                if i > 0 && buf[i - 1] == 0 {
                    if i > from {
                        return Some((i - 1, 4));
                    }
                }
                return Some((i, 3));
            }
            if i + 3 < buf.len() && buf[i + 2] == 0 && buf[i + 3] == 1 {
                return Some((i, 4));
            }
        }
        i += 1;
    }
    None
}

/// Result of extracting the next complete NAL from an accumulation buffer:
/// the NAL (when two start codes are present) and the remaining buffer.
/// Bytes before the first start code are discarded.
pub open spec fn spec_extract_next_nal(buf: Seq<u8>) -> (Option<Seq<u8>>, Seq<u8>)
    decreases buf.len(),
{
    match spec_find_start_code(buf, 0) {
        None => (None, buf),
        Some((p, l)) => {
            if p > 0 {
                if p <= buf.len() {
                    spec_extract_next_nal(buf.subrange(p, buf.len() as int))
                } else {
                    (None, buf)
                }
            } else {
                match spec_find_start_code(buf, l) {
                    Some((q, _)) => (Some(buf.subrange(0, q)), buf.subrange(q, buf.len() as int)),
                    None => (None, buf),
                }
            }
        },
    }
}

/// Extract the next complete NAL unit from `buf`: the bytes from the first
/// start code up to (not including) the second. Bytes before the first start
/// code are discarded; with fewer than two start codes, `None` (the garbage
/// before a lone start code is still dropped).
pub fn extract_next_nal(buf: &mut Vec<u8>) -> (r: Option<Vec<u8>>)
    ensures
        ({
            let (n, rest) = spec_extract_next_nal(old(buf)@);
            &&& r matches Some(v) ==> n == Some(v@)
            &&& r is None ==> n is None
            &&& final(buf)@ == rest
        }),
    decreases old(buf)@.len(),
{
    let found = find_start_code(buf.as_slice(), 0);
    let (first_pos, first_len) = match found {
        Some(x) => x,
        None => return None,
    };
    proof {
        lemma_find_sc_bounds(old(buf)@, 0, 0);
    }
    if first_pos > 0 {
        let ghost before = buf@;
        drain_front(buf, first_pos);
        assert(buf@ =~= before.subrange(first_pos as int, before.len() as int));
        return extract_next_nal(buf);
    }
    let second = find_start_code(buf.as_slice(), first_len);
    match second {
        Some((second_pos, _)) => {
            proof {
                lemma_find_sc_bounds(buf@, first_len as int, first_len as int);
            }
            let nal = slice_vec(buf.as_slice(), 0, second_pos);
            drain_front(buf, second_pos);
            Some(nal)
        },
        None => None,
    }
}

/// Copy `data[start..end]` into a new vector.
pub fn slice_vec(data: &[u8], start: usize, end: usize) -> (out: Vec<u8>)
    requires
        start <= end <= data@.len(),
    ensures
        out@ == data@.subrange(start as int, end as int),
{
    let mut out: Vec<u8> = Vec::new();
    let mut i = start;
    while i < end
        invariant
            start <= i <= end <= data@.len(),
            out@ == data@.subrange(start as int, i as int),
        decreases end - i,
    {
        out.push(data[i]);
        i += 1;
        assert(out@ =~= data@.subrange(start as int, i as int));
    }
    out
}

/// Remove the first `n` bytes of `buf`.
pub fn drain_front(buf: &mut Vec<u8>, n: usize)
    requires
        n <= old(buf)@.len(),
    ensures
        final(buf)@ == old(buf)@.subrange(n as int, old(buf)@.len() as int),
{
    let rest = slice_vec(buf.as_slice(), n, buf.len());
    *buf = rest;
}

/// The NAL units of a complete Annex B payload: every NAL between start
/// codes, plus the last one (which has no trailing start code).
pub open spec fn spec_split_annexb_nals(body: Seq<u8>) -> Seq<Seq<u8>>
    decreases body.len(),
{
    let (n, rest) = spec_extract_next_nal(body);
    match n {
        Some(nal) => {
            if rest.len() < body.len() {
                seq![nal] + spec_split_annexb_nals(rest)
            } else {
                seq![nal]
            }
        },
        None => {
            if spec_find_start_code(rest, 0) is Some {
                seq![rest]
            } else {
                seq![]
            }
        },
    }
}

/// Extraction never grows the buffer, and it shrinks it when a NAL is
/// returned.
pub proof fn lemma_extract_shrinks(buf: Seq<u8>)
    ensures
        spec_extract_next_nal(buf).1.len() <= buf.len(),
        spec_extract_next_nal(buf).0 is Some ==> spec_extract_next_nal(buf).1.len() < buf.len(),
    decreases buf.len(),
{
    lemma_find_sc_bounds(buf, 0, 0);
    match spec_find_start_code(buf, 0) {
        None => {},
        Some((p, l)) => {
            if p > 0 {
                if p <= buf.len() {
                    lemma_extract_shrinks(buf.subrange(p, buf.len() as int));
                }
            } else {
                lemma_find_sc_bounds(buf, l, l);
            }
        },
    }
}

/// Split a complete Annex B payload (one access unit) into its NAL units,
/// each keeping its leading start code.
pub fn split_annexb_nals(body: Vec<u8>) -> (nals: Vec<Vec<u8>>)
    ensures
        nals@.map_values(|v: Vec<u8>| v@) == spec_split_annexb_nals(body@),
{
    let mut body = body;
    let ghost orig = body@;
    let mut nals: Vec<Vec<u8>> = Vec::new();
    assert(nals@.map_values(|v: Vec<u8>| v@) =~= Seq::<Seq<u8>>::empty());
    loop
        invariant_except_break
            nals@.map_values(|v: Vec<u8>| v@) + spec_split_annexb_nals(body@) == spec_split_annexb_nals(orig),
        ensures
            nals@.map_values(|v: Vec<u8>| v@) + (if spec_find_start_code(body@, 0) is Some {
                seq![body@]
            } else {
                Seq::<Seq<u8>>::empty()
            }) == spec_split_annexb_nals(orig),
        decreases body@.len(),
    {
        let ghost before = body@;
        let ghost prev = nals@.map_values(|v: Vec<u8>| v@);
        proof {
            lemma_extract_shrinks(before);
        }
        match extract_next_nal(&mut body) {
            Some(nal) => {
                let ghost nv = nal@;
                nals.push(nal);
                proof {
                    assert(spec_split_annexb_nals(before) == seq![nv] + spec_split_annexb_nals(body@));
                    assert(nals@.map_values(|v: Vec<u8>| v@) =~= prev.push(nv));
                    assert(prev.push(nv) + spec_split_annexb_nals(body@) =~= prev + (seq![nv] + spec_split_annexb_nals(body@)));
                }
            },
            None => {
                break;
            },
        }
    }
    let ghost prev = nals@.map_values(|v: Vec<u8>| v@);
    if find_start_code(body.as_slice(), 0).is_some() {
        let ghost bv = body@;
        nals.push(body);
        assert(nals@.map_values(|v: Vec<u8>| v@) =~= prev + seq![bv]);
    } else {
        assert(prev + Seq::<Seq<u8>>::empty() =~= prev);
    }
    nals
}

// ---------------------------------------------------------------------------
// ADTS
// ---------------------------------------------------------------------------

/// Sampling frequency addressed by an ADTS / AudioSpecificConfig
/// `sampling_frequency_index` (ISO 14496-3, Table 1.18).
pub open spec fn spec_aac_sample_rate(index: u8) -> Option<u32> {
    if index == 0 { Some(96000u32) }
    else if index == 1 { Some(88200u32) }
    else if index == 2 { Some(64000u32) }
    else if index == 3 { Some(48000u32) }
    else if index == 4 { Some(44100u32) }
    else if index == 5 { Some(32000u32) }
    else if index == 6 { Some(24000u32) }
    else if index == 7 { Some(22050u32) }
    else if index == 8 { Some(16000u32) }
    else if index == 9 { Some(12000u32) }
    else if index == 10 { Some(11025u32) }
    else if index == 11 { Some(8000u32) }
    else if index == 12 { Some(7350u32) }
    else { None }
}

/// Number of entries in the sampling-frequency table.
pub const AAC_SAMPLE_RATE_COUNT: u8 = 13;

/// Exec form of [`spec_aac_sample_rate`].
pub fn aac_sample_rate(index: u8) -> (r: Option<u32>)
    ensures
        r == spec_aac_sample_rate(index),
{
    match index {
        0 => Some(96000),
        1 => Some(88200),
        2 => Some(64000),
        3 => Some(48000),
        4 => Some(44100),
        5 => Some(32000),
        6 => Some(24000),
        7 => Some(22050),
        8 => Some(16000),
        9 => Some(12000),
        10 => Some(11025),
        11 => Some(8000),
        12 => Some(7350),
        _ => None,
    }
}

/// A parsed ADTS fixed header (ISO 13818-7 / 14496-3).
#[derive(Debug, Clone, Copy, PartialEq, Eq, Structural)]
pub struct AdtsHeader {
    /// MPEG-4 Audio Object Type (profile + 1; 2 = AAC-LC)
    pub audio_object_type: u8,
    /// Index into the sampling-frequency table
    pub sampling_frequency_index: u8,
    /// Decoded sample rate in Hz
    pub sample_rate: u32,
    /// Channel configuration (1 = mono, 2 = stereo)
    pub channel_configuration: u8,
    /// Header length: 7 bytes, or 9 when a CRC is present
    pub header_len: usize,
    /// Total frame length including the header
    pub frame_len: usize,
}

/// The 13-bit ADTS frame length held in bytes 3..6 of a header.
pub open spec fn adts_frame_len_field(d: Seq<u8>) -> int {
    (d[3] & 0x03u8) * 2048 + d[4] * 8 + d[5] / 32
}

/// The ADTS header at the start of `d`, when the bytes are a plausible
/// ADTS frame: 7 bytes at least, the 12-bit syncword with layer 0, a known
/// sampling-frequency index and a frame length covering the header.
pub open spec fn spec_adts_parse(d: Seq<u8>) -> Option<AdtsHeader> {
    if d.len() < 7 || d[0] != 0xff || (d[1] & 0xf6u8) != 0xf0 {
        None
    } else {
        let header_len: int = if d[1] & 0x01u8 == 1 { 7 } else { 9 };
        let sfi = (d[2] >> 2u8) & 0x0fu8;
        match spec_aac_sample_rate(sfi) {
            None => None,
            Some(rate) => {
                let frame_len = adts_frame_len_field(d);
                if frame_len < header_len {
                    None
                } else {
                    Some(AdtsHeader {
                        audio_object_type: (((d[2] >> 6u8) & 0x03u8) + 1) as u8,
                        sampling_frequency_index: sfi,
                        sample_rate: rate,
                        channel_configuration: ((d[2] & 0x01u8) << 2u8) | (d[3] >> 6u8),
                        header_len: header_len as usize,
                        frame_len: frame_len as usize,
                    })
                }
            },
        }
    }
}

proof fn lemma_frame_len_bits(b3: u8, b4: u8, b5: u8)
    ensures
        ((((b3 & 0x03u8) as usize) << 11usize) | ((b4 as usize) << 3usize) | ((b5 as usize) >> 5usize))
            == (b3 & 0x03u8) as usize * 2048 + b4 as usize * 8 + b5 as usize / 32,
        (b3 & 0x03u8) as usize * 2048 + b4 as usize * 8 + b5 as usize / 32 < 8192,
{
    assert(((((b3 & 0x03u8) as usize) << 11usize) | ((b4 as usize) << 3usize) | ((b5 as usize) >> 5usize))
        == (b3 & 0x03u8) as usize * 2048 + b4 as usize * 8 + b5 as usize / 32) by (bit_vector);
    assert((b3 & 0x03u8) as usize * 2048 + b4 as usize * 8 + b5 as usize / 32 < 8192) by (bit_vector);
}

impl AdtsHeader {
    /// Parse an ADTS header at the start of `data`. Returns `None` when the
    /// bytes are not a plausible ADTS frame.
    pub fn parse(data: &[u8]) -> (r: Option<AdtsHeader>)
        ensures
            r == spec_adts_parse(data@),
    {
        if data.len() < 7 {
            return None;
        }
        if data[0] != 0xFF || (data[1] & 0xF6) != 0xF0 {
            return None;
        }
        let protection_absent = data[1] & 0x01 == 1;
        let header_len: usize = if protection_absent { 7 } else { 9 };
        let profile = (data[2] >> 6) & 0x03;
        let sampling_frequency_index = (data[2] >> 2) & 0x0F;
        let sample_rate = match aac_sample_rate(sampling_frequency_index) {
            Some(r) => r,
            None => return None,
        };
        let channel_configuration = ((data[2] & 0x01) << 2) | (data[3] >> 6);
        proof {
            lemma_frame_len_bits(data@[3], data@[4], data@[5]);
        }
        let frame_len = (((data[3] & 0x03) as usize) << 11) | ((data[4] as usize) << 3) | ((data[5] as usize) >> 5);
        if frame_len < header_len {
            return None;
        }
        let b2 = data[2];
        assert((b2 >> 6u8) & 0x03u8 < 4) by (bit_vector);
        Some(AdtsHeader {
            audio_object_type: profile + 1,
            sampling_frequency_index,
            sample_rate,
            channel_configuration,
            header_len,
            frame_len,
        })
    }

    /// The 2-byte AudioSpecificConfig (ISO 14496-3 §1.6.2.1) that fMP4 `esds`
    /// boxes and AAC decoders need.
    pub fn audio_specific_config(&self) -> (r: [u8; 2])
        ensures
            r@ == spec_asc_bytes(self.audio_object_type, self.sampling_frequency_index, self.channel_configuration),
    {
        let r = [
            (self.audio_object_type << 3) | (self.sampling_frequency_index >> 1),
            ((self.sampling_frequency_index & 0x01) << 7) | (self.channel_configuration << 3),
        ];
        assert(r@ =~= spec_asc_bytes(self.audio_object_type, self.sampling_frequency_index, self.channel_configuration));
        r
    }

    /// Duration of one AAC frame (1024 samples) in microseconds.
    pub fn frame_duration_us(&self) -> (r: i64)
        requires
            self.sample_rate > 0,
        ensures
            r == 1_024_000_000int / (self.sample_rate as int),
    {
        1_024_000_000i64 / (self.sample_rate as i64)
    }
}

/// The sampling frequencies of ISO 14496-3 Table 1.18, by index.
pub open spec fn iso_sampling_frequencies() -> Seq<u32> {
    seq![96000u32, 88200u32, 64000u32, 48000u32, 44100u32, 32000u32, 24000u32, 22050u32, 16000u32, 12000u32,
        11025u32, 8000u32, 7350u32]
}

/// The sampling frequency of index `i` is the `i`-th entry of ISO 14496-3
/// Table 1.18 (96000, 88200, 64000, 48000, 44100, 32000, 24000, 22050,
/// 16000, 12000, 11025, 8000, 7350); indices 13 to 15 (reserved and
/// escape) have none.
pub proof fn lemma_aac_sample_rate_is_iso_table(i: u8)
    ensures
        i < 13 ==> spec_aac_sample_rate(i) == Some(iso_sampling_frequencies()[i as int]),
        i >= 13 ==> spec_aac_sample_rate(i) is None,
{
    let t = iso_sampling_frequencies();
    assert(t[0] == 96000u32 && t[1] == 88200u32 && t[2] == 64000u32 && t[3] == 48000u32 && t[4] == 44100u32
        && t[5] == 32000u32 && t[6] == 24000u32 && t[7] == 22050u32 && t[8] == 16000u32 && t[9] == 12000u32
        && t[10] == 11025u32 && t[11] == 8000u32 && t[12] == 7350u32);
}

/// A parsed ADTS header reports the sampling frequency ISO 14496-3 Table
/// 1.18 gives for the 4-bit index in bits 2..5 of its third byte, and a
/// frame of 1024 samples lasting `1024 * 10^6 / rate` microseconds.
pub proof fn lemma_adts_sample_rate_from_index(d: Seq<u8>)
    requires
        spec_adts_parse(d) is Some,
    ensures
        ({
            let h = spec_adts_parse(d)->0;
            &&& h.sampling_frequency_index == (d[2] >> 2u8) & 0x0fu8
            &&& h.sampling_frequency_index < 13
            &&& h.sample_rate == iso_sampling_frequencies()[h.sampling_frequency_index as int]
        }),
{
    let sfi = (d[2] >> 2u8) & 0x0fu8;
    lemma_aac_sample_rate_is_iso_table(sfi);
}

/// The 2-byte AudioSpecificConfig for an object type, frequency index and
/// channel configuration.
pub open spec fn spec_asc_bytes(aot: u8, sfi: u8, ch: u8) -> Seq<u8> {
    seq![(aot << 3u8) | (sfi >> 1u8), ((sfi & 0x01u8) << 7u8) | (ch << 3u8)]
}

/// Wraps raw AAC frames in ADTS headers, parameterized from a stream's
/// AudioSpecificConfig.
#[derive(Debug, Clone, Copy, PartialEq, Eq)]
pub struct AdtsWrapper {
    audio_object_type: u8,
    sampling_frequency_index: u8,
    channel_configuration: u8,
}

/// The wrapper parameters an AudioSpecificConfig describes, when ADTS can
/// express them: object type 1..=4, a tabled frequency index and a channel
/// configuration 1..=7.
pub open spec fn spec_asc_params(asc: Seq<u8>) -> Option<(u8, u8, u8)> {
    if asc.len() < 2 {
        None
    } else {
        let aot = asc[0] >> 3u8;
        let sfi = ((asc[0] & 0x07u8) << 1u8) | (asc[1] >> 7u8);
        let ch = (asc[1] >> 3u8) & 0x0fu8;
        if !(1 <= aot <= 4) || sfi >= 13 || ch == 0 || ch > 7 {
            None
        } else {
            Some((aot, sfi, ch))
        }
    }
}

/// The 7-byte ADTS header (no CRC, buffer fullness 0x7FF) of a frame of
/// `frame_len` bytes.
pub open spec fn spec_adts_header_bytes(aot: u8, sfi: u8, ch: u8, frame_len: usize) -> Seq<u8> {
    seq![
        0xffu8,
        0xf1u8,
        ((((aot - 1) as u8) & 0x03u8) << 6u8) | (sfi << 2u8) | ((ch >> 2u8) & 0x01u8),
        ((ch & 0x03u8) << 6u8) | (((frame_len >> 11usize) as u8) & 0x03u8),
        (frame_len >> 3usize) as u8,
        (((frame_len as u8) & 0x07u8) << 5u8) | 0x1fu8,
        0xfcu8,
    ]
}

/// The ADTS frame of `raw` for wrapper parameters `p`.
pub open spec fn spec_adts_frame(p: (u8, u8, u8), raw: Seq<u8>) -> Seq<u8> {
    spec_adts_header_bytes(p.0, p.1, p.2, (raw.len() + 7) as usize) + raw
}

impl AdtsWrapper {
    #[verifier::type_invariant]
    spec fn wf(self) -> bool {
        &&& 1 <= self.audio_object_type <= 4
        &&& self.sampling_frequency_index < 13
        &&& 1 <= self.channel_configuration <= 7
    }

    /// The object type, frequency index and channel configuration held.
    pub closed spec fn params(self) -> (u8, u8, u8) {
        (self.audio_object_type, self.sampling_frequency_index, self.channel_configuration)
    }

    /// Parse an AudioSpecificConfig. Returns `None` for configurations ADTS
    /// cannot express.
    pub fn from_asc(asc: &[u8]) -> (r: Option<Self>)
        ensures
            match r {
                Some(w) => spec_asc_params(asc@) == Some(w.params()),
                None => spec_asc_params(asc@) is None,
            },
    {
        if asc.len() < 2 {
            return None;
        }
        let audio_object_type = asc[0] >> 3;
        let sampling_frequency_index = ((asc[0] & 0x07) << 1) | (asc[1] >> 7);
        let channel_configuration = (asc[1] >> 3) & 0x0F;
        if audio_object_type < 1 || audio_object_type > 4 || sampling_frequency_index >= 13
            || channel_configuration == 0 || channel_configuration > 7
        {
            return None;
        }
        Some(Self { audio_object_type, sampling_frequency_index, channel_configuration })
    }

    /// Frame `raw` with a 7-byte ADTS header (no CRC). Returns `None` when
    /// the frame exceeds the 13-bit ADTS length field.
    pub fn wrap(&self, raw: &[u8]) -> (r: Option<Vec<u8>>)
        ensures
            raw@.len() + 7 >= 8192 ==> r is None,
            raw@.len() + 7 < 8192 ==> (r matches Some(v) && v@ == spec_adts_frame(self.params(), raw@)),
    {
        proof {
            use_type_invariant(self);
        }
        if raw.len() >= 8192 - 7 {
            return None;
        }
        let frame_len = raw.len() + 7;
        let mut out: Vec<u8> = Vec::new();
        out.push(0xFF);
        out.push(0xF1);
        out.push(
            (((self.audio_object_type - 1) & 0x03) << 6) | (self.sampling_frequency_index << 2)
                | ((self.channel_configuration >> 2) & 0x01),
        );
        out.push(((self.channel_configuration & 0x03) << 6) | (((frame_len >> 11) as u8) & 0x03));
        out.push((frame_len >> 3) as u8);
        out.push((((frame_len as u8) & 0x07) << 5) | 0x1F);
        out.push(0xFC);
        let ghost hdr = out@;
        put_slice(&mut out, raw);
        assert(hdr =~= spec_adts_header_bytes(self.audio_object_type, self.sampling_frequency_index, self.channel_configuration, frame_len));
        Some(out)
    }
}

proof fn lemma_adts_header_fields(aot: u8, sfi: u8, ch: u8, fl: usize)
    requires
        1 <= aot <= 4,
        sfi < 13,
        1 <= ch <= 7,
        7 <= fl < 8192,
    ensures
        ({
            let h = spec_adts_header_bytes(aot, sfi, ch, fl);
            &&& (h[1] & 0xf6u8) == 0xf0u8
            &&& h[1] & 0x01u8 == 1
            &&& (h[2] >> 6u8) & 0x03u8 == aot - 1
            &&& (h[2] >> 2u8) & 0x0fu8 == sfi
            &&& ((h[2] & 0x01u8) << 2u8) | (h[3] >> 6u8) == ch
            &&& (h[3] & 0x03u8) * 2048 + h[4] * 8 + h[5] / 32 == fl
        }),
{
    let a = ((aot - 1) as u8);
    let b2: u8 = ((a & 0x03u8) << 6u8) | (sfi << 2u8) | ((ch >> 2u8) & 0x01u8);
    let b3: u8 = ((ch & 0x03u8) << 6u8) | (((fl >> 11usize) as u8) & 0x03u8);
    let b4: u8 = (fl >> 3usize) as u8;
    let b5: u8 = (((fl as u8) & 0x07u8) << 5u8) | 0x1fu8;
    assert((0xf1u8 & 0xf6u8) == 0xf0u8 && 0xf1u8 & 0x01u8 == 1) by (bit_vector);
    assert(a < 4 && sfi < 13 ==> (((((a & 0x03u8) << 6u8) | (sfi << 2u8) | ((ch >> 2u8) & 0x01u8)) >> 6u8) & 0x03u8) == a) by (bit_vector);
    assert(sfi < 13 ==> (((((a & 0x03u8) << 6u8) | (sfi << 2u8) | ((ch >> 2u8) & 0x01u8)) >> 2u8) & 0x0fu8) == sfi) by (bit_vector);
    assert(ch <= 7 ==> ((((((a & 0x03u8) << 6u8) | (sfi << 2u8) | ((ch >> 2u8) & 0x01u8)) & 0x01u8) << 2u8)
        | ((((ch & 0x03u8) << 6u8) | (((fl >> 11usize) as u8) & 0x03u8)) >> 6u8)) == ch) by (bit_vector);
    assert(fl < 8192 ==> (((((ch & 0x03u8) << 6u8) | (((fl >> 11usize) as u8) & 0x03u8)) & 0x03u8) as usize) * 2048
        + (((fl >> 3usize) as u8) as usize) * 8 + (((((fl as u8) & 0x07u8) << 5u8) | 0x1fu8) as usize) / 32 == fl) by (bit_vector);
}

/// Framing a raw AAC frame with an ADTS header built from an expressible
/// AudioSpecificConfig yields bytes that parse back to the configuration's
/// object type, frequency index, sample rate and channel configuration, with
/// a 7-byte header and a frame length equal to the framed length.
pub proof fn lemma_adts_wrap_parse_roundtrip(asc: Seq<u8>, raw: Seq<u8>)
    requires
        spec_asc_params(asc) is Some,
        raw.len() + 7 < 8192,
    ensures
        ({
            let p = spec_asc_params(asc).unwrap();
            let framed = spec_adts_frame(p, raw);
            spec_adts_parse(framed) == Some(AdtsHeader {
                audio_object_type: p.0,
                sampling_frequency_index: p.1,
                sample_rate: spec_aac_sample_rate(p.1).unwrap(),
                channel_configuration: p.2,
                header_len: 7,
                frame_len: framed.len() as usize,
            })
        }),
{
    let p = spec_asc_params(asc).unwrap();
    let fl = (raw.len() + 7) as usize;
    lemma_adts_header_fields(p.0, p.1, p.2, fl);
    let framed = spec_adts_frame(p, raw);
    let h = spec_adts_header_bytes(p.0, p.1, p.2, fl);
    assert(framed.len() == raw.len() + 7);
    assert forall|i: int| 0 <= i < 7 implies framed[i] == h[i] by {}
    assert(adts_frame_len_field(framed) == fl);
}

/// An AudioSpecificConfig whose trailing three bits of the second byte are
/// clear is reproduced exactly by the header's `audio_specific_config`.
pub proof fn lemma_asc_roundtrip(asc: Seq<u8>)
    requires
        spec_asc_params(asc) is Some,
        asc[1] & 0x07u8 == 0,
    ensures
        ({
            let p = spec_asc_params(asc).unwrap();
            spec_asc_bytes(p.0, p.1, p.2) == asc.subrange(0, 2)
        }),
{
    let a0 = asc[0];
    let a1 = asc[1];
    assert(a1 & 0x07u8 == 0 ==> {
        let aot = a0 >> 3u8;
        let sfi = ((a0 & 0x07u8) << 1u8) | (a1 >> 7u8);
        let ch = (a1 >> 3u8) & 0x0fu8;
        &&& (aot << 3u8) | (sfi >> 1u8) == a0
        &&& ((sfi & 0x01u8) << 7u8) | (ch << 3u8) == a1
    }) by (bit_vector);
    assert(spec_asc_bytes(spec_asc_params(asc).unwrap().0, spec_asc_params(asc).unwrap().1, spec_asc_params(asc).unwrap().2) =~= asc.subrange(0, 2));
}

// ---------------------------------------------------------------------------
// avcC / hvcC decoder configuration records
// ---------------------------------------------------------------------------

/// A raw NAL prefixed with a 4-byte Annex B start code.
pub open spec fn spec_annexb(nal: Seq<u8>) -> Seq<u8> {
    seq![0u8, 0u8, 0u8, 1u8] + nal
}

/// Prefix a raw NAL with a 4-byte Annex B start code.
pub fn annexb(nal: &[u8]) -> (r: Vec<u8>)
    ensures
        r@ == spec_annexb(nal@),
{
    let mut v: Vec<u8> = Vec::new();
    v.push(0);
    v.push(0);
    v.push(0);
    v.push(1);
    put_slice(&mut v, nal);
    assert(v@ =~= spec_annexb(nal@));
    v
}

/// Big-endian value of a byte string, each step shifting the accumulator
/// left by 8 bits (so bits above the machine word are dropped).
pub open spec fn be_usize(s: Seq<u8>) -> usize
    decreases s.len(),
{
    if s.len() == 0 {
        0
    } else {
        (be_usize(s.drop_last()) << 8usize) | (s.last() as usize)
    }
}

/// The Annex B NALs of a length-prefixed (AVCC) sample, stopping at the first
/// zero length or truncated NAL.
pub open spec fn spec_avcc_split(d: Seq<u8>, ls: int, i: int) -> Seq<Seq<u8>>
    decreases d.len() - i,
{
    if i < 0 || ls < 0 || i + ls > d.len() {
        seq![]
    } else {
        let len = be_usize(d.subrange(i, i + ls)) as int;
        let j = i + ls;
        if len == 0 || j + len > d.len() {
            seq![]
        } else {
            seq![spec_annexb(d.subrange(j, j + len))] + spec_avcc_split(d, ls, j + len)
        }
    }
}

/// Convert a length-prefixed (AVCC) sample into Annex B NAL units.
pub fn avcc_to_annexb(data: &[u8], length_size: usize) -> (nals: Vec<Vec<u8>>)
    ensures
        nals@.map_values(|v: Vec<u8>| v@) == spec_avcc_split(data@, length_size as int, 0),
{
    let mut nals: Vec<Vec<u8>> = Vec::new();
    let mut i: usize = 0;
    assert(nals@.map_values(|v: Vec<u8>| v@) =~= Seq::<Seq<u8>>::empty());
    while length_size <= data.len() - i
        invariant_except_break
            i <= data.len(),
            nals@.map_values(|v: Vec<u8>| v@) + spec_avcc_split(data@, length_size as int, i as int)
                == spec_avcc_split(data@, length_size as int, 0),
        ensures
            nals@.map_values(|v: Vec<u8>| v@) == spec_avcc_split(data@, length_size as int, 0),
        decreases data.len() - i,
    {
        let ghost prev = nals@.map_values(|v: Vec<u8>| v@);
        let mut len: usize = 0;
        let mut k: usize = i;
        while k < i + length_size
            invariant
                i <= k <= i + length_size <= data.len(),
                len == be_usize(data@.subrange(i as int, k as int)),
            decreases i + length_size - k,
        {
            assert(data@.subrange(i as int, k + 1).drop_last() =~= data@.subrange(i as int, k as int));
            len = (len << 8) | (data[k] as usize);
            k += 1;
        }
        i += length_size;
        if len == 0 || len > data.len() - i {
            assert(prev + Seq::<Seq<u8>>::empty() =~= prev);
            break;
        }
        let nal = annexb(&data[i..i + len]);
        let ghost nv = nal@;
        nals.push(nal);
        i += len;
        assert(nals@.map_values(|v: Vec<u8>| v@) =~= prev.push(nv));
        assert(prev.push(nv) + spec_avcc_split(data@, length_size as int, i as int)
            =~= prev + (seq![nv] + spec_avcc_split(data@, length_size as int, i as int)));
    }
    nals
}

/// Reading `count` entries of (u16 length, bytes) from `d` at `i`: the Annex B
/// NALs and the end position, or where it stopped short (1 = a length field,
/// 2 = a NAL body).
pub open spec fn spec_read_nal_list(d: Seq<u8>, i: int, count: nat) -> Result<(Seq<Seq<u8>>, int), u8>
    decreases count,
{
    if count == 0 {
        Ok((seq![], i))
    } else if i + 2 > d.len() {
        Err(1u8)
    } else {
        let len = d[i] * 256 + d[i + 1];
        let j = i + 2;
        if j + len > d.len() {
            Err(2u8)
        } else {
            match spec_read_nal_list(d, j + len, (count - 1) as nat) {
                Ok((rest, e)) => Ok((seq![spec_annexb(d.subrange(j, j + len))] + rest, e)),
                Err(x) => Err(x),
            }
        }
    }
}

/// `nals` followed by the result of a read.
pub open spec fn prepend_nals(nals: Seq<Seq<u8>>, r: Result<(Seq<Seq<u8>>, int), u8>) -> Result<(Seq<Seq<u8>>, int), u8> {
    match r {
        Ok((rest, e)) => Ok((nals + rest, e)),
        Err(x) => Err(x),
    }
}

proof fn lemma_prepend_step(a: Seq<Seq<u8>>, n: Seq<u8>, r: Result<(Seq<Seq<u8>>, int), u8>)
    ensures
        prepend_nals(a, prepend_nals(seq![n], r)) == prepend_nals(a.push(n), r),
{
    match r {
        Ok((rest, e)) => {
            assert(a + (seq![n] + rest) =~= a.push(n) + rest);
        },
        Err(_) => {},
    }
}

proof fn lemma_read_nal_list_end(d: Seq<u8>, i: int, count: nat)
    requires
        0 <= i <= d.len(),
    ensures
        spec_read_nal_list(d, i, count) matches Ok((_, e)) ==> i <= e <= d.len(),
    decreases count,
{
    if count > 0 && i + 2 <= d.len() {
        let len = d[i] * 256 + d[i + 1];
        if i + 2 + len <= d.len() {
            lemma_read_nal_list_end(d, i + 2 + len, (count - 1) as nat);
        }
    }
}

proof fn lemma_read_nal_list_err(d: Seq<u8>, i: int, count: nat)
    ensures
        spec_read_nal_list(d, i, count) matches Err(x) ==> x == 1 || x == 2,
    decreases count,
{
    if count > 0 && i + 2 <= d.len() {
        let len = d[i] * 256 + d[i + 1];
        if i + 2 + len <= d.len() {
            lemma_read_nal_list_err(d, i + 2 + len, (count - 1) as nat);
        }
    }
}

proof fn lemma_be16_usize(hi: u8, lo: u8)
    ensures
        ((hi as usize) << 8usize) | (lo as usize) == hi as usize * 256 + lo as usize,
{
    assert(((hi as usize) << 8usize) | (lo as usize) == hi as usize * 256 + lo as usize) by (bit_vector);
}

/// Read `count` length-prefixed NALs from `d` at `i`, appending them to `nals`.
fn read_nal_list(d: &[u8], from: usize, count: usize, nals: &mut Vec<Vec<u8>>) -> (r: Result<usize, u8>)
    requires
        from <= d@.len(),
    ensures
        prepend_nals(old(nals)@.map_values(|v: Vec<u8>| v@), spec_read_nal_list(d@, from as int, count as nat))
            == (match r {
                Ok(e) => Ok((final(nals)@.map_values(|v: Vec<u8>| v@), e as int)),
                Err(x) => Err(x),
            }),
{
    let mut i = from;
    let mut k: usize = 0;
    let ghost start = nals@.map_values(|v: Vec<u8>| v@);
    assert(prepend_nals(start, spec_read_nal_list(d@, i as int, (count - k) as nat))
        == prepend_nals(start, spec_read_nal_list(d@, from as int, count as nat)));
    while k < count
        invariant
            k <= count,
            i <= d@.len(),
            start == old(nals)@.map_values(|v: Vec<u8>| v@),
            prepend_nals(start, spec_read_nal_list(d@, from as int, count as nat))
                == prepend_nals(nals@.map_values(|v: Vec<u8>| v@), spec_read_nal_list(d@, i as int, (count - k) as nat)),
        decreases count - k,
    {
        let ghost prev = nals@.map_values(|v: Vec<u8>| v@);
        let ghost at = i as int;
        if d.len() - i < 2 {
            assert(spec_read_nal_list(d@, at, (count - k) as nat) == Err::<(Seq<Seq<u8>>, int), u8>(1u8));
            return Err(1);
        }
        let (hi, lo) = (d[i], d[i + 1]);
        let len = ((hi as usize) << 8) | lo as usize;
        proof {
            lemma_be16_usize(hi, lo);
        }
        i += 2;
        if len > d.len() - i {
            assert(spec_read_nal_list(d@, at, (count - k) as nat) == Err::<(Seq<Seq<u8>>, int), u8>(2u8));
            return Err(2);
        }
        let nal = annexb(&d[i..i + len]);
        let ghost nv = nal@;
        nals.push(nal);
        i += len;
        k += 1;
        proof {
            assert(nals@.map_values(|v: Vec<u8>| v@) =~= prev.push(nv));
            lemma_prepend_step(prev, nv, spec_read_nal_list(d@, i as int, (count - k) as nat));
        }
    }
    assert(start + Seq::<Seq<u8>>::empty() =~= start);
    assert(nals@.map_values(|v: Vec<u8>| v@) + Seq::<Seq<u8>>::empty() =~= nals@.map_values(|v: Vec<u8>| v@));
    Ok(i)
}

/// The result of parsing an AVCDecoderConfigurationRecord: Annex B SPS and
/// PPS NALs with the AVCC length-prefix size, or the reason it failed.
pub open spec fn spec_parse_avcc(d: Seq<u8>) -> Result<(Seq<Seq<u8>>, usize), Seq<char>> {
    if d.len() < 7 {
        Err("avcC too short"@)
    } else {
        let length_size = ((d[4] & 0x03u8) + 1) as usize;
        match spec_read_nal_list(d, 6, (d[5] & 0x1fu8) as nat) {
            Err(_) => Err("avcC SPS truncated"@),
            Ok((sps, i)) => {
                if i >= d.len() {
                    Err("avcC PPS missing"@)
                } else {
                    match spec_read_nal_list(d, i + 1, d[i] as nat) {
                        Err(_) => Err("avcC PPS truncated"@),
                        Ok((pps, _)) => Ok((sps + pps, length_size)),
                    }
                }
            },
        }
    }
}

/// The view of a parse result with owned NAL vectors.
pub open spec fn view_nal_result(r: Result<(Vec<Vec<u8>>, usize), String>) -> Result<(Seq<Seq<u8>>, usize), Seq<char>> {
    match r {
        Ok((v, n)) => Ok((v@.map_values(|x: Vec<u8>| x@), n)),
        Err(e) => Err(e@),
    }
}

/// A string from a literal.
fn msg(s: &str) -> (r: String)
    ensures
        r@ == s@,
{
    s.to_string()
}

/// Parse an AVCDecoderConfigurationRecord (avcC).
pub fn parse_avcc(d: &[u8]) -> (r: Result<(Vec<Vec<u8>>, usize), String>)
    ensures
        view_nal_result(r) == spec_parse_avcc(d@),
{
    if d.len() < 7 {
        return Err(msg("avcC too short"));
    }
    let b4 = d[4];
    assert(b4 & 0x03u8 <= 3u8) by (bit_vector);
    let length_size = ((b4 & 0x03) + 1) as usize;
    let mut nals: Vec<Vec<u8>> = Vec::new();
    assert(nals@.map_values(|v: Vec<u8>| v@) =~= Seq::<Seq<u8>>::empty());
    let num_sps = (d[5] & 0x1f) as usize;
    let i = match read_nal_list(d, 6, num_sps, &mut nals) {
        Ok(i) => i,
        Err(_) => return Err(msg("avcC SPS truncated")),
    };
    proof {
        assert(Seq::<Seq<u8>>::empty() + spec_read_nal_list(d@, 6, num_sps as nat)->Ok_0.0 =~= spec_read_nal_list(d@, 6, num_sps as nat)->Ok_0.0);
    }
    if i >= d.len() {
        return Err(msg("avcC PPS missing"));
    }
    let num_pps = d[i] as usize;
    let ghost sps_view = nals@.map_values(|v: Vec<u8>| v@);
    match read_nal_list(d, i + 1, num_pps, &mut nals) {
        Ok(_) => {},
        Err(_) => return Err(msg("avcC PPS truncated")),
    }
    Ok((nals, length_size))
}

/// Reading `count` hvcC NAL arrays from `d` at `i` (each: a type byte, a u16
/// NAL count, then length-prefixed NALs): the NALs and end position, or where
/// it stopped short (0 = an array header, 1 = a length field, 2 = a NAL body).
pub open spec fn spec_read_hvcc_arrays(d: Seq<u8>, i: int, count: nat) -> Result<(Seq<Seq<u8>>, int), u8>
    decreases count,
{
    if count == 0 {
        Ok((seq![], i))
    } else if i + 3 > d.len() {
        Err(0u8)
    } else {
        let n = d[i + 1] * 256 + d[i + 2];
        match spec_read_nal_list(d, i + 3, n as nat) {
            Err(x) => Err(x),
            Ok((nals, j)) => match spec_read_hvcc_arrays(d, j, (count - 1) as nat) {
                Ok((rest, e)) => Ok((nals + rest, e)),
                Err(x) => Err(x),
            },
        }
    }
}

/// The result of parsing an HEVCDecoderConfigurationRecord: Annex B
/// VPS/SPS/PPS NALs with the length-prefix size, or the reason it failed.
pub open spec fn spec_parse_hvcc(d: Seq<u8>) -> Result<(Seq<Seq<u8>>, usize), Seq<char>> {
    if d.len() < 23 {
        Err("hvcC too short"@)
    } else {
        let length_size = ((d[21] & 0x03u8) + 1) as usize;
        match spec_read_hvcc_arrays(d, 23, d[22] as nat) {
            Err(0u8) => Err("hvcC array header truncated"@),
            Err(1u8) => Err("hvcC nalu length truncated"@),
            Err(_) => Err("hvcC nalu truncated"@),
            Ok((nals, _)) => Ok((nals, length_size)),
        }
    }
}

proof fn lemma_prepend_concat(a: Seq<Seq<u8>>, b: Seq<Seq<u8>>, r: Result<(Seq<Seq<u8>>, int), u8>)
    ensures
        prepend_nals(a + b, r) == prepend_nals(a, prepend_nals(b, r)),
{
    match r {
        Ok((rest, e)) => {
            assert(a + b + rest =~= a + (b + rest));
        },
        Err(_) => {},
    }
}

/// Parse an HEVCDecoderConfigurationRecord (hvcC).
pub fn parse_hvcc(d: &[u8]) -> (r: Result<(Vec<Vec<u8>>, usize), String>)
    ensures
        view_nal_result(r) == spec_parse_hvcc(d@),
{
    if d.len() < 23 {
        return Err(msg("hvcC too short"));
    }
    let b21 = d[21];
    assert(b21 & 0x03u8 <= 3u8) by (bit_vector);
    let length_size = ((b21 & 0x03) + 1) as usize;
    let num_arrays = d[22] as usize;
    let mut nals: Vec<Vec<u8>> = Vec::new();
    let mut i: usize = 23;
    let mut k: usize = 0;
    proof {
        assert(nals@.map_values(|v: Vec<u8>| v@) =~= Seq::<Seq<u8>>::empty());
        match spec_read_hvcc_arrays(d@, 23, num_arrays as nat) {
            Ok((x, e)) => { assert(Seq::<Seq<u8>>::empty() + x =~= x); },
            Err(_) => {},
        }
    }
    while k < num_arrays
        invariant
            k <= num_arrays == d@[22],
            23 <= i <= d@.len(),
            d@.len() >= 23,
            length_size == ((d@[21] & 0x03u8) + 1) as usize,
            spec_read_hvcc_arrays(d@, 23, num_arrays as nat)
                == prepend_nals(nals@.map_values(|v: Vec<u8>| v@), spec_read_hvcc_arrays(d@, i as int, (num_arrays - k) as nat)),
        decreases num_arrays - k,
    {
        let ghost prev = nals@.map_values(|v: Vec<u8>| v@);
        let ghost rem = (num_arrays - k) as nat;
        let ghost at = i as int;
        if d.len() - i < 3 {
            return Err(msg("hvcC array header truncated"));
        }
        i += 1;
        let (hi, lo) = (d[i], d[i + 1]);
        let num_nalus = ((hi as usize) << 8) | lo as usize;
        proof {
            lemma_be16_usize(hi, lo);
        }
        i += 2;
        proof {
            lemma_read_nal_list_end(d@, i as int, num_nalus as nat);
        }
        match read_nal_list(d, i, num_nalus, &mut nals) {
            Ok(j) => {
                let ghost mid = spec_read_nal_list(d@, i as int, num_nalus as nat)->Ok_0.0;
                i = j;
                k += 1;
                proof {
                    assert(nals@.map_values(|v: Vec<u8>| v@) == prev + mid);
                    lemma_prepend_concat(prev, mid, spec_read_hvcc_arrays(d@, i as int, (num_arrays - k) as nat));
                }
            },
            Err(e) => {
                proof {
                    lemma_read_nal_list_err(d@, i as int, num_nalus as nat);
                    assert(spec_read_hvcc_arrays(d@, at, rem) == Err::<(Seq<Seq<u8>>, int), u8>(e));
                }
                if e == 1 {
                    return Err(msg("hvcC nalu length truncated"));
                }
                return Err(msg("hvcC nalu truncated"));
            },
        }
    }
    proof {
        assert(nals@.map_values(|v: Vec<u8>| v@) + Seq::<Seq<u8>>::empty() =~= nals@.map_values(|v: Vec<u8>| v@));
    }
    Ok((nals, length_size))
}

/// The parameter-set NALs and length size of a codec's decoder
/// configuration record.
pub open spec fn spec_parse_extradata(d: Seq<u8>, codec: VideoCodec) -> Result<(Seq<Seq<u8>>, usize), Seq<char>> {
    match codec {
        VideoCodec::H264 => spec_parse_avcc(d),
        VideoCodec::H265 => spec_parse_hvcc(d),
        VideoCodec::Unknown => Err("unknown codec"@),
    }
}

/// Parse SPS/PPS(/VPS) parameter sets and the NAL length size from avcC/hvcC.
pub fn parse_extradata(extradata: &[u8], codec: VideoCodec) -> (r: Result<(Vec<Vec<u8>>, usize), String>)
    ensures
        view_nal_result(r) == spec_parse_extradata(extradata@, codec),
{
    match codec {
        VideoCodec::H264 => parse_avcc(extradata),
        VideoCodec::H265 => parse_hvcc(extradata),
        VideoCodec::Unknown => Err(msg("unknown codec")),
    }
}

/// The parameter-set NALs a codec's extradata carries: Annex B extradata is
/// split; an avcC/hvcC record (first byte 1) is converted; anything else
/// yields nothing.
pub open spec fn spec_extradata_nals(d: Seq<u8>, codec: VideoCodec) -> Seq<Seq<u8>> {
    if d.len() == 0 {
        seq![]
    } else if has_prefix(d, seq![0u8, 0u8, 1u8]) || has_prefix(d, seq![0u8, 0u8, 0u8, 1u8]) {
        spec_split_annexb_nals(d)
    } else if d[0] == 1 {
        match spec_parse_extradata(d, codec) {
            Ok((nals, _)) => nals,
            Err(_) => seq![],
        }
    } else {
        seq![]
    }
}

/// Convert a stream's codec extradata into Annex B parameter-set NALs.
pub fn extradata_to_annexb_nals(extradata: &[u8], codec: VideoCodec) -> (r: Vec<Vec<u8>>)
    ensures
        r@.map_values(|v: Vec<u8>| v@) == spec_extradata_nals(extradata@, codec),
{
    if extradata.len() == 0 {
        let r: Vec<Vec<u8>> = Vec::new();
        assert(r@.map_values(|v: Vec<u8>| v@) =~= Seq::<Seq<u8>>::empty());
        return r;
    }
    let p3: [u8; 3] = [0, 0, 1];
    let p4: [u8; 4] = [0, 0, 0, 1];
    assert(p3@ =~= seq![0u8, 0u8, 1u8]);
    assert(p4@ =~= seq![0u8, 0u8, 0u8, 1u8]);
    if starts_with(extradata, &p3) || starts_with(extradata, &p4) {
        return split_annexb_nals(to_vec(extradata));
    }
    if extradata[0] == 1 {
        match parse_extradata(extradata, codec) {
            Ok((nals, _)) => return nals,
            Err(_) => {},
        }
    }
    let r: Vec<Vec<u8>> = Vec::new();
    assert(r@.map_values(|v: Vec<u8>| v@) =~= Seq::<Seq<u8>>::empty());
    r
}

} // verus!
