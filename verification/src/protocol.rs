//! Wire protocol for ZoneMinder's per-monitor stream socket.
//!
//! Each `zmc` process serves the monitor's compressed media on
//! `{PATH_SOCKS}/stream_{monitor_id}.sock`. All integers are little-endian.
//! Every message starts with a 24-byte fixed header:
//!
//! ```text
//! u32  length      bytes following this field (20 + payload size)
//! u8   version     protocol version, 1
//! u8   type        message type
//! u8   stream      0 = video, 1 = audio
//! u8   flags       bit 0: keyframe (video); other bits reserved
//! u32  sequence    per-stream, counts every message produced
//! u32  generation  stream epoch; a bump means re-init the decoder
//! u64  pts_us      microseconds (AV_TIME_BASE_Q), shared clock
//! ```
//!
//! Version 1 has no client-to-server messages; zmc ignores inbound bytes.

use vstd::prelude::*;
use crate::media::{AudioCodec, VideoCodec};
use crate::wire::{le16, le32, le64, read_le16, read_le32, read_le64, to_vec};

verus! {

pub const PROTOCOL_VERSION: u8 = 1;

/// Total serialized header size, including the leading length field.
pub const HEADER_SIZE: usize = 24;

/// Bytes of fixed header counted by the `length` field (everything after the
/// length field itself).
pub const HEADER_LENGTH_BYTES: u32 = 20;

/// Sanity cap on the length field; larger values mean a corrupt or hostile
/// peer (matches zmc's `kMaxMessageLength`).
pub const MAX_MESSAGE_LENGTH: u32 = 33554432;

/// Message types of the stream socket.
#[derive(Debug, Clone, Copy, PartialEq, Eq, Structural)]
pub enum MessageType {
    Hello,
    Media,
    Keyframe,
    Stats,
    Bye,
    /// Monitor lifecycle / analysis event (see [`MonitorEvent`]). Carried on
    /// [`StreamId::Monitor`]; payload is a u16 code plus a TLV tail.
    Event,
}

/// The message type a wire byte names; 0x10..=0x13 (the optional
/// client-to-server control extension) and every other value are unknown.
pub open spec fn spec_message_type(v: u8) -> Option<MessageType> {
    if v == 1 {
        Some(MessageType::Hello)
    } else if v == 2 {
        Some(MessageType::Media)
    } else if v == 3 {
        Some(MessageType::Keyframe)
    } else if v == 4 {
        Some(MessageType::Stats)
    } else if v == 5 {
        Some(MessageType::Bye)
    } else if v == 6 {
        Some(MessageType::Event)
    } else {
        None
    }
}

impl MessageType {
    pub fn from_u8(v: u8) -> (r: Option<Self>)
        ensures
            r == spec_message_type(v),
    {
        match v {
            0x01 => Some(MessageType::Hello),
            0x02 => Some(MessageType::Media),
            0x03 => Some(MessageType::Keyframe),
            0x04 => Some(MessageType::Stats),
            0x05 => Some(MessageType::Bye),
            0x06 => Some(MessageType::Event),
            _ => None,
        }
    }
}

/// Streams of the socket.
#[derive(Debug, Clone, Copy, PartialEq, Eq, Structural)]
pub enum StreamId {
    Video,
    Audio,
    /// Neither video nor audio: monitor lifecycle / analysis EVENT frames.
    Monitor,
}

/// The stream a wire byte names.
pub open spec fn spec_stream_id(v: u8) -> Option<StreamId> {
    if v == 0 {
        Some(StreamId::Video)
    } else if v == 1 {
        Some(StreamId::Audio)
    } else if v == 2 {
        Some(StreamId::Monitor)
    } else {
        None
    }
}

impl StreamId {
    pub fn from_u8(v: u8) -> (r: Option<Self>)
        ensures
            r == spec_stream_id(v),
    {
        match v {
            0 => Some(StreamId::Video),
            1 => Some(StreamId::Audio),
            2 => Some(StreamId::Monitor),
            _ => None,
        }
    }
}

/// Header flag: the message carries a video keyframe access unit.
pub const FLAG_KEYFRAME: u8 = 0x01;

// HELLO TLV tags
pub const TLV_CODEC_ID: u8 = 0x01;
pub const TLV_EXTRADATA: u8 = 0x02;
pub const TLV_WIDTH: u8 = 0x03;
pub const TLV_HEIGHT: u8 = 0x04;
pub const TLV_FPS_NUM: u8 = 0x05;
pub const TLV_FPS_DEN: u8 = 0x06;
pub const TLV_SAMPLE_RATE: u8 = 0x07;
pub const TLV_CHANNELS: u8 = 0x08;
pub const TLV_PROFILE: u8 = 0x09;
pub const TLV_LEVEL: u8 = 0x0A;

// EVENT codes. Lifecycle codes are canonical; the 0x03xx range is the
// additive analysis/AI extension. Unknown codes are surfaced verbatim, never
// errored.
/// Current health and state, replayed on connect.
pub const EVENT_SNAPSHOT: u16 = 0x0001;
pub const EVENT_CONNECTION_FAILED: u16 = 0x0101;
pub const EVENT_CONNECTION_RESTORED: u16 = 0x0102;
pub const EVENT_PRIME_CAPTURE_FAILED: u16 = 0x0103;
pub const EVENT_PRIME_CAPTURE_RESTORED: u16 = 0x0104;
pub const EVENT_CAPTURE_FAILED: u16 = 0x0105;
pub const EVENT_CAPTURE_RESUMED: u16 = 0x0106;
pub const EVENT_STATE_CHANGED: u16 = 0x0201;
/// Motion / object detection.
pub const EVENT_DETECTION: u16 = 0x0301;
/// Scene description.
pub const EVENT_DESCRIPTION: u16 = 0x0302;
/// A clip was written to storage.
pub const EVENT_RECORDING_SAVED: u16 = 0x0303;

// EVENT TLV tags
pub const TLV_WALL_CLOCK_US: u8 = 0x01;
pub const TLV_MESSAGE: u8 = 0x02;
pub const TLV_STATE_ID: u8 = 0x03;
pub const TLV_PREV_STATE_ID: u8 = 0x04;
pub const TLV_DETAIL: u8 = 0x05;
pub const TLV_STATE_NAME: u8 = 0x06;
pub const TLV_HEALTH_CODE: u8 = 0x07;
pub const TLV_JSON_DETAIL: u8 = 0x10;

/// Why a stream-socket message could not be decoded.
#[derive(Debug, Clone, Copy, PartialEq, Eq)]
pub enum ProtocolError {
    UnsupportedVersion(u8),
    BadLength(u32),
    TruncatedTlv,
    MissingCodecId,
    ShortPayload(&'static str),
    TruncatedEventTlv,
}

/// A parsed message header. `msg_type` and `stream` are kept raw so unknown
/// values can be skipped (forward compatibility) instead of erroring.
#[derive(Debug, Clone, Copy, PartialEq, Eq, Structural)]
pub struct Header {
    pub msg_type: u8,
    pub stream: u8,
    pub flags: u8,
    pub sequence: u32,
    pub generation: u32,
    pub pts_us: i64,
    pub payload_len: usize,
}

/// The header the 24 bytes `b` encode: the version must be 1 and the length
/// field within `20..=MAX_MESSAGE_LENGTH`; `pts_us` is the u64 field
/// reinterpreted as signed.
pub open spec fn spec_parse_header(b: Seq<u8>) -> Result<Header, ProtocolError> {
    let length = le32(b, 0);
    if b[4] != PROTOCOL_VERSION {
        Err(ProtocolError::UnsupportedVersion(b[4]))
    } else if !(HEADER_LENGTH_BYTES <= length <= MAX_MESSAGE_LENGTH) {
        Err(ProtocolError::BadLength(length as u32))
    } else {
        Ok(Header {
            msg_type: b[5],
            stream: b[6],
            flags: b[7],
            sequence: le32(b, 8) as u32,
            generation: le32(b, 12) as u32,
            pts_us: (le64(b, 16) as u64) as i64,
            payload_len: (length - HEADER_LENGTH_BYTES) as usize,
        })
    }
}

/// Parse a fixed message header. Fails when the version is unsupported or the
/// length field is impossible (shorter than the fixed header remainder or
/// above the cap) — both mean the byte stream cannot be trusted further.
pub fn parse_header(buf: &[u8; 24]) -> (r: Result<Header, ProtocolError>)
    ensures
        r == spec_parse_header(buf@),
{
    let b: &[u8] = buf.as_slice();
    let length = read_le32(b, 0);
    let version = b[4];
    if version != PROTOCOL_VERSION {
        return Err(ProtocolError::UnsupportedVersion(version));
    }
    if length < HEADER_LENGTH_BYTES || length > MAX_MESSAGE_LENGTH {
        return Err(ProtocolError::BadLength(length));
    }
    Ok(Header {
        msg_type: b[5],
        stream: b[6],
        flags: b[7],
        sequence: read_le32(b, 8),
        generation: read_le32(b, 12),
        pts_us: read_le64(b, 16) as i64,
        payload_len: (length - HEADER_LENGTH_BYTES) as usize,
    })
}

/// Decoded HELLO parameters. Zero / empty means "not present on the wire"
/// for every field except `codec_id`, which is required.
#[derive(Debug, Clone, PartialEq, Eq)]
pub struct HelloInfo {
    /// ffmpeg `AVCodecID` value
    pub codec_id: u32,
    /// Raw `codecpar->extradata`: SPS/PPS/VPS for H.26x (Annex B or
    /// avcC/hvcC), AudioSpecificConfig for AAC.
    pub extradata: Vec<u8>,
    pub width: u32,
    pub height: u32,
    pub fps_num: u32,
    pub fps_den: u32,
    pub sample_rate: u32,
    pub channels: u32,
    pub profile: u32,
    pub level: u32,
}

/// The value of a [`HelloInfo`], with the extradata as a byte sequence.
pub struct HelloView {
    pub codec_id: u32,
    pub extradata: Seq<u8>,
    pub width: u32,
    pub height: u32,
    pub fps_num: u32,
    pub fps_den: u32,
    pub sample_rate: u32,
    pub channels: u32,
    pub profile: u32,
    pub level: u32,
}

impl View for HelloInfo {
    type V = HelloView;

    open spec fn view(&self) -> HelloView {
        HelloView {
            codec_id: self.codec_id,
            extradata: self.extradata@,
            width: self.width,
            height: self.height,
            fps_num: self.fps_num,
            fps_den: self.fps_den,
            sample_rate: self.sample_rate,
            channels: self.channels,
            profile: self.profile,
            level: self.level,
        }
    }
}

/// The HELLO with nothing present.
pub open spec fn empty_hello() -> HelloView {
    HelloView {
        codec_id: 0,
        extradata: seq![],
        width: 0,
        height: 0,
        fps_num: 0,
        fps_den: 0,
        sample_rate: 0,
        channels: 0,
        profile: 0,
        level: 0,
    }
}

impl Default for HelloInfo {
    fn default() -> (r: Self)
        ensures
            r@ == empty_hello(),
    {
        HelloInfo {
            codec_id: 0,
            extradata: Vec::new(),
            width: 0,
            height: 0,
            fps_num: 0,
            fps_den: 0,
            sample_rate: 0,
            channels: 0,
            profile: 0,
            level: 0,
        }
    }
}

/// A u32 TLV value: present only with exactly four bytes.
pub open spec fn tlv_u32(value: Seq<u8>) -> Option<u32> {
    if value.len() == 4 {
        Some(le32(value, 0) as u32)
    } else {
        None
    }
}

/// A u32 TLV value, or 0 when its length is not four.
pub open spec fn tlv_u32_or_zero(value: Seq<u8>) -> u32 {
    match tlv_u32(value) {
        Some(v) => v,
        None => 0,
    }
}

/// One HELLO TLV applied to the fields decoded so far (and whether the codec
/// id was seen). A codec id of the wrong length is ignored; other u32 fields
/// of the wrong length read as 0; unknown tags are skipped.
pub open spec fn hello_apply(info: HelloView, saw: bool, tag: u8, value: Seq<u8>) -> (HelloView, bool) {
    if tag == TLV_CODEC_ID {
        match tlv_u32(value) {
            Some(v) => (HelloView { codec_id: v, ..info }, true),
            None => (info, saw),
        }
    } else if tag == TLV_EXTRADATA {
        (HelloView { extradata: value, ..info }, saw)
    } else if tag == TLV_WIDTH {
        (HelloView { width: tlv_u32_or_zero(value), ..info }, saw)
    } else if tag == TLV_HEIGHT {
        (HelloView { height: tlv_u32_or_zero(value), ..info }, saw)
    } else if tag == TLV_FPS_NUM {
        (HelloView { fps_num: tlv_u32_or_zero(value), ..info }, saw)
    } else if tag == TLV_FPS_DEN {
        (HelloView { fps_den: tlv_u32_or_zero(value), ..info }, saw)
    } else if tag == TLV_SAMPLE_RATE {
        (HelloView { sample_rate: tlv_u32_or_zero(value), ..info }, saw)
    } else if tag == TLV_CHANNELS {
        (HelloView { channels: tlv_u32_or_zero(value), ..info }, saw)
    } else if tag == TLV_PROFILE {
        (HelloView { profile: tlv_u32_or_zero(value), ..info }, saw)
    } else if tag == TLV_LEVEL {
        (HelloView { level: tlv_u32_or_zero(value), ..info }, saw)
    } else {
        (info, saw)
    }
}

/// The HELLO TLVs of `d` from offset `i` applied in order, or
/// `TruncatedTlv` when a TLV header or value runs past the end.
pub open spec fn spec_hello_from(d: Seq<u8>, i: int, info: HelloView, saw: bool) -> Result<(HelloView, bool), ProtocolError>
    decreases d.len() - i,
{
    if i >= d.len() {
        Ok((info, saw))
    } else if i + 3 > d.len() {
        Err(ProtocolError::TruncatedTlv)
    } else {
        let len = le16(d, i + 1);
        let j = i + 3;
        if j + len > d.len() {
            Err(ProtocolError::TruncatedTlv)
        } else {
            let (info2, saw2) = hello_apply(info, saw, d[i], d.subrange(j, j + len));
            spec_hello_from(d, j + len, info2, saw2)
        }
    }
}

/// The HELLO a payload decodes to; a payload without a (4-byte) codec id is
/// `MissingCodecId`.
pub open spec fn spec_parse_hello(d: Seq<u8>) -> Result<HelloView, ProtocolError> {
    match spec_hello_from(d, 0, empty_hello(), false) {
        Err(e) => Err(e),
        Ok((info, saw)) => if saw {
            Ok(info)
        } else {
            Err(ProtocolError::MissingCodecId)
        },
    }
}

/// The u32 TLV value at `value`, when it is four bytes long.
fn read_tlv_u32(value: &[u8]) -> (r: Option<u32>)
    ensures
        r == tlv_u32(value@),
{
    if value.len() == 4 {
        Some(read_le32(value, 0))
    } else {
        None
    }
}

/// Parse a HELLO payload: a TLV list of (u8 tag, u16 length, value). Unknown
/// tags are skipped per the protocol spec.
pub fn parse_hello(data: &[u8]) -> (r: Result<HelloInfo, ProtocolError>)
    ensures
        match r {
            Ok(info) => spec_parse_hello(data@) == Ok::<HelloView, ProtocolError>(info@),
            Err(e) => spec_parse_hello(data@) == Err::<HelloView, ProtocolError>(e),
        },
{
    let mut info = HelloInfo::default();
    let mut saw_codec_id = false;
    let mut i: usize = 0;
    while i < data.len()
        invariant
            i <= data@.len(),
            spec_hello_from(data@, 0, empty_hello(), false) == spec_hello_from(data@, i as int, info@, saw_codec_id),
        decreases data.len() - i,
    {
        if data.len() - i < 3 {
            return Err(ProtocolError::TruncatedTlv);
        }
        let tag = data[i];
        let len = read_le16(data, i + 1) as usize;
        i += 3;
        if len > data.len() - i {
            return Err(ProtocolError::TruncatedTlv);
        }
        let value = &data[i..i + len];
        i += len;
        if tag == TLV_CODEC_ID {
            match read_tlv_u32(value) {
                Some(v) => {
                    info.codec_id = v;
                    saw_codec_id = true;
                },
                None => {},
            }
        } else if tag == TLV_EXTRADATA {
            info.extradata = to_vec(value);
        } else if tag == TLV_WIDTH {
            info.width = read_tlv_u32(value).unwrap_or(0);
        } else if tag == TLV_HEIGHT {
            info.height = read_tlv_u32(value).unwrap_or(0);
        } else if tag == TLV_FPS_NUM {
            info.fps_num = read_tlv_u32(value).unwrap_or(0);
        } else if tag == TLV_FPS_DEN {
            info.fps_den = read_tlv_u32(value).unwrap_or(0);
        } else if tag == TLV_SAMPLE_RATE {
            info.sample_rate = read_tlv_u32(value).unwrap_or(0);
        } else if tag == TLV_CHANNELS {
            info.channels = read_tlv_u32(value).unwrap_or(0);
        } else if tag == TLV_PROFILE {
            info.profile = read_tlv_u32(value).unwrap_or(0);
        } else if tag == TLV_LEVEL {
            info.level = read_tlv_u32(value).unwrap_or(0);
        }
    }
    if !saw_codec_id {
        return Err(ProtocolError::MissingCodecId);
    }
    Ok(info)
}

/// The text `String::from_utf8_lossy` makes of `bytes`: valid UTF-8
/// decoded, each invalid sequence replaced by U+FFFD.
pub uninterp spec fn utf8_lossy(bytes: Seq<u8>) -> Seq<char>;

/// `String::from_utf8_lossy(bytes).into_owned()`; its result is the named
/// value [`utf8_lossy`] of the bytes (which depends on them alone). Of
/// that value only the ASCII case is stated: ASCII bytes are valid UTF-8,
/// each decoding to the character of the same code.
#[verifier::external_body]
fn string_from_utf8_lossy(bytes: &[u8]) -> (r: String)
    ensures
        r@ == utf8_lossy(bytes@),
        (forall|i: int| 0 <= i < bytes@.len() ==> #[trigger] bytes@[i] < 0x80u8)
            ==> r@ == bytes@.map_values(|b: u8| b as char),
{
    String::from_utf8_lossy(bytes).into_owned()
}

/// Decoded EVENT payload. A field is `Some` only when its TLV tag was
/// present on the wire; producers omit tags that do not apply to the code.
/// `code` is always present (it is the fixed u16 prefix).
#[derive(Debug, Clone, PartialEq, Eq)]
pub struct MonitorEvent {
    /// One of the `EVENT_*` codes. Unknown codes are surfaced, not errored.
    pub code: u16,
    /// Unix-epoch microseconds — the timestamp to surface for this event.
    pub wall_clock_us: Option<u64>,
    /// Human-readable detail.
    pub message: Option<String>,
    /// Current monitor state id.
    pub state_id: Option<u32>,
    /// Previous monitor state id (state_changed).
    pub prev_state_id: Option<u32>,
    /// errno / ffmpeg error code accompanying a fault.
    pub detail: Option<u32>,
    /// Current state name ("Idle"/"Alarm"/...).
    pub state_name: Option<String>,
    /// Active fault code in a snapshot (0 = healthy).
    pub health_code: Option<u16>,
    /// Structured analysis/AI detail as a UTF-8 JSON document.
    pub json_detail: Option<String>,
}

/// The value of a [`MonitorEvent`], with its texts as character sequences.
pub struct MonitorEventView {
    pub code: u16,
    pub wall_clock_us: Option<u64>,
    pub message: Option<Seq<char>>,
    pub state_id: Option<u32>,
    pub prev_state_id: Option<u32>,
    pub detail: Option<u32>,
    pub state_name: Option<Seq<char>>,
    pub health_code: Option<u16>,
    pub json_detail: Option<Seq<char>>,
}

/// The view of an optional text.
pub open spec fn opt_text(s: Option<String>) -> Option<Seq<char>> {
    match s {
        Some(t) => Some(t@),
        None => None,
    }
}

impl View for MonitorEvent {
    type V = MonitorEventView;

    open spec fn view(&self) -> MonitorEventView {
        MonitorEventView {
            code: self.code,
            wall_clock_us: self.wall_clock_us,
            message: opt_text(self.message),
            state_id: self.state_id,
            prev_state_id: self.prev_state_id,
            detail: self.detail,
            state_name: opt_text(self.state_name),
            health_code: self.health_code,
            json_detail: opt_text(self.json_detail),
        }
    }
}

/// One EVENT TLV applied to the event decoded so far. Fixed-size fields are
/// taken only with their exact length; unknown tags are skipped.
pub open spec fn event_apply(ev: MonitorEventView, tag: u8, value: Seq<u8>) -> MonitorEventView {
    if tag == TLV_WALL_CLOCK_US && value.len() == 8 {
        MonitorEventView { wall_clock_us: Some(le64(value, 0) as u64), ..ev }
    } else if tag == TLV_MESSAGE {
        MonitorEventView { message: Some(utf8_lossy(value)), ..ev }
    } else if tag == TLV_STATE_ID && value.len() == 4 {
        MonitorEventView { state_id: Some(le32(value, 0) as u32), ..ev }
    } else if tag == TLV_PREV_STATE_ID && value.len() == 4 {
        MonitorEventView { prev_state_id: Some(le32(value, 0) as u32), ..ev }
    } else if tag == TLV_DETAIL && value.len() == 4 {
        MonitorEventView { detail: Some(le32(value, 0) as u32), ..ev }
    } else if tag == TLV_STATE_NAME {
        MonitorEventView { state_name: Some(utf8_lossy(value)), ..ev }
    } else if tag == TLV_HEALTH_CODE && value.len() == 2 {
        MonitorEventView { health_code: Some(le16(value, 0) as u16), ..ev }
    } else if tag == TLV_JSON_DETAIL {
        MonitorEventView { json_detail: Some(utf8_lossy(value)), ..ev }
    } else {
        ev
    }
}

/// The EVENT TLVs of `d` from offset `i` applied in order, or
/// `TruncatedEventTlv` when a TLV header or value runs past the end.
pub open spec fn spec_event_from(d: Seq<u8>, i: int, ev: MonitorEventView) -> Result<MonitorEventView, ProtocolError>
    decreases d.len() - i,
{
    if i >= d.len() {
        Ok(ev)
    } else if i + 3 > d.len() {
        Err(ProtocolError::TruncatedEventTlv)
    } else {
        let len = le16(d, i + 1);
        let j = i + 3;
        if j + len > d.len() {
            Err(ProtocolError::TruncatedEventTlv)
        } else {
            spec_event_from(d, j + len, event_apply(ev, d[i], d.subrange(j, j + len)))
        }
    }
}

/// The event with only its code.
pub open spec fn bare_event(code: u16) -> MonitorEventView {
    MonitorEventView {
        code,
        wall_clock_us: None,
        message: None,
        state_id: None,
        prev_state_id: None,
        detail: None,
        state_name: None,
        health_code: None,
        json_detail: None,
    }
}

/// The event a payload decodes to: a u16 code, then TLVs.
pub open spec fn spec_parse_event(d: Seq<u8>) -> Result<MonitorEventView, ProtocolError> {
    if d.len() < 2 {
        Err(ProtocolError::ShortPayload("EVENT"))
    } else {
        spec_event_from(d, 2, bare_event(le16(d, 0) as u16))
    }
}

/// Parse an EVENT payload: a u16 `code` followed by a TLV tail of
/// (u8 tag, u16 length, value). Unknown tags are skipped per the protocol
/// spec, exactly like HELLO. Fails only when the fixed code or a TLV header
/// runs past the end of the payload.
pub fn parse_event(data: &[u8]) -> (r: Result<MonitorEvent, ProtocolError>)
    ensures
        match r {
            Ok(ev) => spec_parse_event(data@) == Ok::<MonitorEventView, ProtocolError>(ev@),
            Err(e) => spec_parse_event(data@) == Err::<MonitorEventView, ProtocolError>(e),
        },
{
    if data.len() < 2 {
        return Err(ProtocolError::ShortPayload("EVENT"));
    }
    let mut ev = MonitorEvent {
        code: read_le16(data, 0),
        wall_clock_us: None,
        message: None,
        state_id: None,
        prev_state_id: None,
        detail: None,
        state_name: None,
        health_code: None,
        json_detail: None,
    };
    let mut i: usize = 2;
    while i < data.len()
        invariant
            2 <= i <= data@.len(),
            spec_parse_event(data@) == spec_event_from(data@, i as int, ev@),
        decreases data.len() - i,
    {
        if data.len() - i < 3 {
            return Err(ProtocolError::TruncatedEventTlv);
        }
        let tag = data[i];
        let len = read_le16(data, i + 1) as usize;
        i += 3;
        if len > data.len() - i {
            return Err(ProtocolError::TruncatedEventTlv);
        }
        let value = &data[i..i + len];
        i += len;
        if tag == TLV_WALL_CLOCK_US && len == 8 {
            ev.wall_clock_us = Some(read_le64(value, 0));
        } else if tag == TLV_MESSAGE {
            ev.message = Some(string_from_utf8_lossy(value));
        } else if tag == TLV_STATE_ID && len == 4 {
            ev.state_id = Some(read_le32(value, 0));
        } else if tag == TLV_PREV_STATE_ID && len == 4 {
            ev.prev_state_id = Some(read_le32(value, 0));
        } else if tag == TLV_DETAIL && len == 4 {
            ev.detail = Some(read_le32(value, 0));
        } else if tag == TLV_STATE_NAME {
            ev.state_name = Some(string_from_utf8_lossy(value));
        } else if tag == TLV_HEALTH_CODE && len == 2 {
            ev.health_code = Some(read_le16(value, 0));
        } else if tag == TLV_JSON_DETAIL {
            ev.json_detail = Some(string_from_utf8_lossy(value));
        }
    }
    Ok(ev)
}

/// Parse a STATS payload: u64 messages sent, u64 messages dropped for this
/// consumer.
pub fn parse_stats(data: &[u8]) -> (r: Result<(u64, u64), ProtocolError>)
    ensures
        data@.len() < 16 ==> r == Err::<(u64, u64), ProtocolError>(ProtocolError::ShortPayload("STATS")),
        data@.len() >= 16 ==> r == Ok::<(u64, u64), ProtocolError>((le64(data@, 0) as u64, le64(data@, 8) as u64)),
{
    if data.len() < 16 {
        return Err(ProtocolError::ShortPayload("STATS"));
    }
    let sent = read_le64(data, 0);
    let dropped = read_le64(data, 8);
    Ok((sent, dropped))
}

/// The ffmpeg `AVCodecID` values the pipeline recognises.
#[derive(Debug, Clone, Copy, PartialEq, Eq)]
pub struct CodecIds {
    pub h264: u32,
    pub hevc: u32,
    pub aac: u32,
    pub pcm_alaw: u32,
    pub pcm_mulaw: u32,
    pub opus: u32,
}

/// The video codec an `AVCodecID` names, given the ids' values.
pub open spec fn spec_video_codec_from_id(codec_id: u32, ids: CodecIds) -> VideoCodec {
    if codec_id == ids.h264 {
        VideoCodec::H264
    } else if codec_id == ids.hevc {
        VideoCodec::H265
    } else {
        VideoCodec::Unknown
    }
}

/// Map an ffmpeg `AVCodecID` from a video HELLO to the pipeline's codec enum.
pub fn video_codec_from_id(codec_id: u32, ids: &CodecIds) -> (r: VideoCodec)
    ensures
        r == spec_video_codec_from_id(codec_id, *ids),
{
    if codec_id == ids.h264 {
        VideoCodec::H264
    } else if codec_id == ids.hevc {
        VideoCodec::H265
    } else {
        VideoCodec::Unknown
    }
}

/// The audio codec an `AVCodecID` names, given the ids' values.
pub open spec fn spec_audio_codec_from_id(codec_id: u32, ids: CodecIds) -> AudioCodec {
    if codec_id == ids.aac {
        AudioCodec::Aac
    } else if codec_id == ids.pcm_alaw {
        AudioCodec::G711Alaw
    } else if codec_id == ids.pcm_mulaw {
        AudioCodec::G711Ulaw
    } else if codec_id == ids.opus {
        AudioCodec::Opus
    } else {
        AudioCodec::Unknown
    }
}

/// Map an ffmpeg `AVCodecID` from an audio HELLO to the pipeline's codec enum.
pub fn audio_codec_from_id(codec_id: u32, ids: &CodecIds) -> (r: AudioCodec)
    ensures
        r == spec_audio_codec_from_id(codec_id, *ids),
{
    if codec_id == ids.aac {
        AudioCodec::Aac
    } else if codec_id == ids.pcm_alaw {
        AudioCodec::G711Alaw
    } else if codec_id == ids.pcm_mulaw {
        AudioCodec::G711Ulaw
    } else if codec_id == ids.opus {
        AudioCodec::Opus
    } else {
        AudioCodec::Unknown
    }
}

} // verus!
