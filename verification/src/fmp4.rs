//! ISO BMFF (fragmented MP4) box layout: the byte strings of the boxes an
//! HLS init segment is made of, each as a spec function and a builder that
//! produces exactly those bytes.
//!
//! Box sizes are 32-bit fields; a payload too large for one wraps, as the
//! u32 arithmetic of the writer does.

use vstd::prelude::*;
use crate::wire::{be16, be32, be64, put_slice, put_u16, put_u32, put_u64, put_u8, put_zeros};
use crate::media::{leading_start_code_len, start_code_len};

verus! {

/// `n` zero bytes.
pub open spec fn zeros(n: nat) -> Seq<u8> {
    Seq::new(n, |_i: int| 0u8)
}

/// A box: 32-bit size, four-character type, payload.
pub open spec fn box_bytes(box_type: Seq<u8>, payload: Seq<u8>) -> Seq<u8> {
    be32((8 + payload.len()) as u32) + box_type + payload
}

/// The low three bytes of a full box's flags, big-endian.
pub open spec fn flag_bytes(flags: u32) -> Seq<u8> {
    seq![((flags >> 16u32) & 0xffu32) as u8, ((flags >> 8u32) & 0xffu32) as u8, (flags & 0xffu32) as u8]
}

/// A full box: a box whose payload starts with a version byte and 24 bits
/// of flags.
pub open spec fn full_box_bytes(box_type: Seq<u8>, version: u8, flags: u32, payload: Seq<u8>) -> Seq<u8> {
    be32((12 + payload.len()) as u32) + box_type + seq![version] + flag_bytes(flags) + payload
}

/// The four bytes of a code.
pub open spec fn cc_seq(cc: [u8; 4]) -> Seq<u8> {
    seq![cc[0], cc[1], cc[2], cc[3]]
}

/// Append a box.
pub fn put_box(buf: &mut Vec<u8>, box_type: [u8; 4], payload: &[u8])
    ensures
        final(buf)@ == old(buf)@ + box_bytes(cc_seq(box_type), payload@),
{
    let size = (payload.len() as u128 + 8) as u32;
    put_u32(buf, size);
    put_cc(buf, box_type);
    put_slice(buf, payload);
    assert(final(buf)@ =~= old(buf)@ + box_bytes(cc_seq(box_type), payload@));
}

/// Append a full box.
pub fn put_full_box(buf: &mut Vec<u8>, box_type: [u8; 4], version: u8, flags: u32, payload: &[u8])
    ensures
        final(buf)@ == old(buf)@ + full_box_bytes(cc_seq(box_type), version, flags, payload@),
{
    let size = (payload.len() as u128 + 12) as u32;
    put_u32(buf, size);
    put_cc(buf, box_type);
    put_u8(buf, version);
    put_u8(buf, ((flags >> 16u32) & 0xffu32) as u8);
    put_u8(buf, ((flags >> 8u32) & 0xffu32) as u8);
    put_u8(buf, (flags & 0xffu32) as u8);
    put_slice(buf, payload);
    assert(final(buf)@ =~= old(buf)@ + full_box_bytes(cc_seq(box_type), version, flags, payload@));
}

/// Builder for a sequence of boxes.
pub struct BoxBuilder {
    buffer: Vec<u8>,
}

impl View for BoxBuilder {
    type V = Seq<u8>;

    closed spec fn view(&self) -> Seq<u8> {
        self.buffer@
    }
}

impl BoxBuilder {
    /// An empty builder.
    pub fn new() -> (r: Self)
        ensures
            r@ == Seq::<u8>::empty(),
    {
        BoxBuilder { buffer: Vec::new() }
    }

    /// Write a box with the given type and data.
    pub fn write_box(&mut self, box_type: &[u8; 4], data: &[u8])
        ensures
            final(self)@ == old(self)@ + box_bytes(box_type@, data@),
    {
        put_box(&mut self.buffer, *box_type, data);
        assert(cc_seq(*box_type) =~= box_type@);
    }

    /// Write a full box (with version and flags).
    pub fn write_full_box(&mut self, box_type: &[u8; 4], version: u8, flags: u32, data: &[u8])
        ensures
            final(self)@ == old(self)@ + full_box_bytes(box_type@, version, flags, data@),
    {
        put_full_box(&mut self.buffer, *box_type, version, flags, data);
        assert(cc_seq(*box_type) =~= box_type@);
    }

    /// The bytes written.
    pub fn into_bytes(self) -> (r: Vec<u8>)
        ensures
            r@ == self@,
    {
        self.buffer
    }

    /// Number of bytes written.
    pub fn len(&self) -> (r: usize)
        ensures
            r == self@.len(),
    {
        self.buffer.len()
    }
}

/// Append a four-character code.
pub fn put_cc(buf: &mut Vec<u8>, cc: [u8; 4])
    ensures
        final(buf)@ == old(buf)@ + cc_seq(cc),
{
    put_u8(buf, cc[0]);
    put_u8(buf, cc[1]);
    put_u8(buf, cc[2]);
    put_u8(buf, cc[3]);
    assert(final(buf)@ =~= old(buf)@ + cc_seq(cc));
}

// Four-character box and brand codes.
pub open spec fn cc_ftyp() -> Seq<u8> { seq![0x66u8, 0x74, 0x79, 0x70] }
pub open spec fn cc_isom() -> Seq<u8> { seq![0x69u8, 0x73, 0x6f, 0x6d] }
pub open spec fn cc_iso6() -> Seq<u8> { seq![0x69u8, 0x73, 0x6f, 0x36] }
pub open spec fn cc_mp41() -> Seq<u8> { seq![0x6du8, 0x70, 0x34, 0x31] }
pub open spec fn cc_moov() -> Seq<u8> { seq![0x6du8, 0x6f, 0x6f, 0x76] }
pub open spec fn cc_mvhd() -> Seq<u8> { seq![0x6du8, 0x76, 0x68, 0x64] }
pub open spec fn cc_trak() -> Seq<u8> { seq![0x74u8, 0x72, 0x61, 0x6b] }
pub open spec fn cc_tkhd() -> Seq<u8> { seq![0x74u8, 0x6b, 0x68, 0x64] }
pub open spec fn cc_mdia() -> Seq<u8> { seq![0x6du8, 0x64, 0x69, 0x61] }
pub open spec fn cc_mdhd() -> Seq<u8> { seq![0x6du8, 0x64, 0x68, 0x64] }
pub open spec fn cc_hdlr() -> Seq<u8> { seq![0x68u8, 0x64, 0x6c, 0x72] }
pub open spec fn cc_vide() -> Seq<u8> { seq![0x76u8, 0x69, 0x64, 0x65] }
pub open spec fn cc_soun() -> Seq<u8> { seq![0x73u8, 0x6f, 0x75, 0x6e] }
pub open spec fn cc_minf() -> Seq<u8> { seq![0x6du8, 0x69, 0x6e, 0x66] }
pub open spec fn cc_vmhd() -> Seq<u8> { seq![0x76u8, 0x6d, 0x68, 0x64] }
pub open spec fn cc_smhd() -> Seq<u8> { seq![0x73u8, 0x6d, 0x68, 0x64] }
pub open spec fn cc_dinf() -> Seq<u8> { seq![0x64u8, 0x69, 0x6e, 0x66] }
pub open spec fn cc_dref() -> Seq<u8> { seq![0x64u8, 0x72, 0x65, 0x66] }
pub open spec fn cc_url() -> Seq<u8> { seq![0x75u8, 0x72, 0x6c, 0x20] }
pub open spec fn cc_stbl() -> Seq<u8> { seq![0x73u8, 0x74, 0x62, 0x6c] }
pub open spec fn cc_stsd() -> Seq<u8> { seq![0x73u8, 0x74, 0x73, 0x64] }
pub open spec fn cc_stts() -> Seq<u8> { seq![0x73u8, 0x74, 0x74, 0x73] }
pub open spec fn cc_stsc() -> Seq<u8> { seq![0x73u8, 0x74, 0x73, 0x63] }
pub open spec fn cc_stsz() -> Seq<u8> { seq![0x73u8, 0x74, 0x73, 0x7a] }
pub open spec fn cc_stco() -> Seq<u8> { seq![0x73u8, 0x74, 0x63, 0x6f] }
pub open spec fn cc_avc1() -> Seq<u8> { seq![0x61u8, 0x76, 0x63, 0x31] }
pub open spec fn cc_avcc() -> Seq<u8> { seq![0x61u8, 0x76, 0x63, 0x43] }
pub open spec fn cc_hvc1() -> Seq<u8> { seq![0x68u8, 0x76, 0x63, 0x31] }
pub open spec fn cc_hvcc() -> Seq<u8> { seq![0x68u8, 0x76, 0x63, 0x43] }
pub open spec fn cc_mp4a() -> Seq<u8> { seq![0x6du8, 0x70, 0x34, 0x61] }
pub open spec fn cc_esds() -> Seq<u8> { seq![0x65u8, 0x73, 0x64, 0x73] }
pub open spec fn cc_mvex() -> Seq<u8> { seq![0x6du8, 0x76, 0x65, 0x78] }
pub open spec fn cc_trex() -> Seq<u8> { seq![0x74u8, 0x72, 0x65, 0x78] }
pub open spec fn cc_moof() -> Seq<u8> { seq![0x6du8, 0x6f, 0x6f, 0x66] }
pub open spec fn cc_mfhd() -> Seq<u8> { seq![0x6du8, 0x66, 0x68, 0x64] }
pub open spec fn cc_traf() -> Seq<u8> { seq![0x74u8, 0x72, 0x61, 0x66] }
pub open spec fn cc_tfhd() -> Seq<u8> { seq![0x74u8, 0x66, 0x68, 0x64] }
pub open spec fn cc_tfdt() -> Seq<u8> { seq![0x74u8, 0x66, 0x64, 0x74] }
pub open spec fn cc_trun() -> Seq<u8> { seq![0x74u8, 0x72, 0x75, 0x6e] }
pub open spec fn cc_mdat() -> Seq<u8> { seq![0x6du8, 0x64, 0x61, 0x74] }

/// The ftyp payload: major brand isom, minor version 0x200, compatible
/// brands isom, iso6, mp41.
pub open spec fn ftyp_payload() -> Seq<u8> {
    cc_isom() + be32(0x200) + cc_isom() + cc_iso6() + cc_mp41()
}

/// Build ftyp box data.
pub fn build_ftyp() -> (r: Vec<u8>)
    ensures
        r@ == ftyp_payload(),
{
    let mut d: Vec<u8> = Vec::new();
    put_cc(&mut d, [0x69, 0x73, 0x6f, 0x6d]);
    put_u32(&mut d, 0x200);
    put_cc(&mut d, [0x69, 0x73, 0x6f, 0x6d]);
    put_cc(&mut d, [0x69, 0x73, 0x6f, 0x36]);
    put_cc(&mut d, [0x6d, 0x70, 0x34, 0x31]);
    assert(d@ =~= ftyp_payload());
    d
}

/// The identity transformation matrix of mvhd and tkhd.
pub open spec fn unity_matrix() -> Seq<u8> {
    be32(0x10000) + zeros(12) + be32(0x10000) + zeros(12) + be32(0x4000_0000)
}

fn put_unity_matrix(d: &mut Vec<u8>)
    ensures
        final(d)@ == old(d)@ + unity_matrix(),
{
    let ghost start = d@;
    put_u32(d, 0x10000);
    put_zeros(d, 12);
    put_u32(d, 0x10000);
    put_zeros(d, 12);
    put_u32(d, 0x4000_0000);
    assert(d@ =~= start + unity_matrix());
}

/// The mvhd payload: zero times, the timescale, unknown duration, rate and
/// volume 1.0, identity matrix, next track id 2.
pub open spec fn mvhd_payload(timescale: u32) -> Seq<u8> {
    zeros(8) + be32(timescale) + zeros(4) + be32(0x10000) + be16(0x100) + zeros(10) + unity_matrix()
        + zeros(24) + be32(2)
}

/// Build mvhd box data.
pub fn build_mvhd(timescale: u32) -> (r: Vec<u8>)
    ensures
        r@ == mvhd_payload(timescale),
{
    let mut d: Vec<u8> = Vec::new();
    put_zeros(&mut d, 8);
    put_u32(&mut d, timescale);
    put_zeros(&mut d, 4);
    put_u32(&mut d, 0x10000);
    put_u16(&mut d, 0x100);
    put_zeros(&mut d, 10);
    put_unity_matrix(&mut d);
    put_zeros(&mut d, 24);
    put_u32(&mut d, 2);
    assert(d@ =~= mvhd_payload(timescale));
    d
}

/// The tkhd payload of track `track_id`: zero times and duration, the
/// volume, identity matrix, and width/height in 16.16 fixed point.
pub open spec fn tkhd_payload(track_id: u32, volume: u16, width: u32, height: u32) -> Seq<u8> {
    zeros(8) + be32(track_id) + zeros(16) + zeros(4) + be16(volume) + zeros(2) + unity_matrix()
        + be32(width << 16u32) + be32(height << 16u32)
}

/// Build tkhd box data.
pub fn build_tkhd(track_id: u32, volume: u16, width: u32, height: u32) -> (r: Vec<u8>)
    ensures
        r@ == tkhd_payload(track_id, volume, width, height),
{
    let mut d: Vec<u8> = Vec::new();
    put_zeros(&mut d, 8);
    put_u32(&mut d, track_id);
    put_zeros(&mut d, 16);
    put_zeros(&mut d, 4);
    put_u16(&mut d, volume);
    put_zeros(&mut d, 2);
    put_unity_matrix(&mut d);
    put_u32(&mut d, width << 16u32);
    put_u32(&mut d, height << 16u32);
    assert(d@ =~= tkhd_payload(track_id, volume, width, height));
    d
}

/// The mdhd payload: zero times, the timescale, unknown duration, language
/// 'und'.
pub open spec fn mdhd_payload(timescale: u32) -> Seq<u8> {
    zeros(8) + be32(timescale) + zeros(4) + be16(0x55c4) + zeros(2)
}

/// Build mdhd box data.
pub fn build_mdhd(timescale: u32) -> (r: Vec<u8>)
    ensures
        r@ == mdhd_payload(timescale),
{
    let mut d: Vec<u8> = Vec::new();
    put_zeros(&mut d, 8);
    put_u32(&mut d, timescale);
    put_zeros(&mut d, 4);
    put_u16(&mut d, 0x55c4);
    put_zeros(&mut d, 2);
    assert(d@ =~= mdhd_payload(timescale));
    d
}

/// "VideoHandler" with its terminating NUL.
pub open spec fn video_handler_name() -> Seq<u8> {
    seq![0x56u8, 0x69, 0x64, 0x65, 0x6f, 0x48, 0x61, 0x6e, 0x64, 0x6c, 0x65, 0x72, 0x00]
}

/// "SoundHandler" with its terminating NUL.
pub open spec fn sound_handler_name() -> Seq<u8> {
    seq![0x53u8, 0x6f, 0x75, 0x6e, 0x64, 0x48, 0x61, 0x6e, 0x64, 0x6c, 0x65, 0x72, 0x00]
}

/// The hdlr payload of the video (`audio` false) or sound handler.
pub open spec fn hdlr_payload(audio: bool) -> Seq<u8> {
    if audio {
        zeros(4) + cc_soun() + zeros(12) + sound_handler_name()
    } else {
        zeros(4) + cc_vide() + zeros(12) + video_handler_name()
    }
}

/// Build hdlr box data.
pub fn build_hdlr(audio: bool) -> (r: Vec<u8>)
    ensures
        r@ == hdlr_payload(audio),
{
    let mut d: Vec<u8> = Vec::new();
    put_zeros(&mut d, 4);
    if audio {
        put_cc(&mut d, [0x73, 0x6f, 0x75, 0x6e]);
        put_zeros(&mut d, 12);
        put_cc(&mut d, [0x53, 0x6f, 0x75, 0x6e]);
        put_cc(&mut d, [0x64, 0x48, 0x61, 0x6e]);
        put_cc(&mut d, [0x64, 0x6c, 0x65, 0x72]);
        put_u8(&mut d, 0);
        assert(d@ =~= hdlr_payload(audio));
    } else {
        put_cc(&mut d, [0x76, 0x69, 0x64, 0x65]);
        put_zeros(&mut d, 12);
        put_cc(&mut d, [0x56, 0x69, 0x64, 0x65]);
        put_cc(&mut d, [0x6f, 0x48, 0x61, 0x6e]);
        put_cc(&mut d, [0x64, 0x6c, 0x65, 0x72]);
        put_u8(&mut d, 0);
        assert(d@ =~= hdlr_payload(audio));
    }
    d
}

/// The dinf payload: a dref with one self-contained url entry.
pub open spec fn dinf_payload() -> Seq<u8> {
    full_box_bytes(cc_dref(), 0, 0, be32(1) + be32(12) + cc_url() + be32(1))
}

/// Build dinf box data.
pub fn build_dinf() -> (r: Vec<u8>)
    ensures
        r@ == dinf_payload(),
{
    let mut dref: Vec<u8> = Vec::new();
    put_u32(&mut dref, 1);
    put_u32(&mut dref, 12);
    put_cc(&mut dref, [0x75, 0x72, 0x6c, 0x20]);
    put_u32(&mut dref, 1);
    assert(dref@ =~= be32(1) + be32(12) + cc_url() + be32(1));
    let mut d: Vec<u8> = Vec::new();
    put_full_box(&mut d, [0x64, 0x72, 0x65, 0x66], 0, 0, dref.as_slice());
    assert(d@ =~= dinf_payload());
    d
}

/// The empty stts, stsc, stsz and stco tables of a fragmented track.
pub open spec fn empty_sample_tables() -> Seq<u8> {
    full_box_bytes(cc_stts(), 0, 0, zeros(4)) + full_box_bytes(cc_stsc(), 0, 0, zeros(4))
        + full_box_bytes(cc_stsz(), 0, 0, zeros(8)) + full_box_bytes(cc_stco(), 0, 0, zeros(4))
}

/// The stbl payload with the given stsd payload.
pub open spec fn stbl_payload(stsd: Seq<u8>) -> Seq<u8> {
    full_box_bytes(cc_stsd(), 0, 0, stsd) + empty_sample_tables()
}

/// Build stbl box data around an stsd payload.
pub fn build_stbl(stsd: &[u8]) -> (r: Vec<u8>)
    ensures
        r@ == stbl_payload(stsd@),
{
    let z4: [u8; 4] = [0, 0, 0, 0];
    let z8: [u8; 8] = [0, 0, 0, 0, 0, 0, 0, 0];
    assert(z4@ =~= zeros(4));
    assert(z8@ =~= zeros(8));
    let mut d: Vec<u8> = Vec::new();
    put_full_box(&mut d, [0x73, 0x74, 0x73, 0x64], 0, 0, stsd);
    put_full_box(&mut d, [0x73, 0x74, 0x74, 0x73], 0, 0, z4.as_slice());
    put_full_box(&mut d, [0x73, 0x74, 0x73, 0x63], 0, 0, z4.as_slice());
    put_full_box(&mut d, [0x73, 0x74, 0x73, 0x7a], 0, 0, z8.as_slice());
    put_full_box(&mut d, [0x73, 0x74, 0x63, 0x6f], 0, 0, z4.as_slice());
    assert(d@ =~= stbl_payload(stsd@));
    d
}

/// Byte `i` of `s`, or `default` when `s` is too short.
pub open spec fn byte_or(s: Seq<u8>, i: int, default: u8) -> u8 {
    if 0 <= i < s.len() {
        s[i]
    } else {
        default
    }
}

fn get_or(s: &[u8], i: usize, default: u8) -> (r: u8)
    ensures
        r == byte_or(s@, i as int, default),
{
    if i < s.len() {
        s[i]
    } else {
        default
    }
}

/// The avcC payload: version 1, profile / compatibility / level copied from
/// the SPS (with defaults 0x42, 0, 0x1E), 4-byte NAL lengths, one SPS and one
/// PPS with 16-bit lengths.
pub open spec fn avcc_payload(sps: Seq<u8>, pps: Seq<u8>) -> Seq<u8> {
    seq![1u8, byte_or(sps, 1, 0x42), byte_or(sps, 2, 0), byte_or(sps, 3, 0x1e), 0xffu8, 0xe1u8]
        + be16(sps.len() as u16) + sps + seq![1u8] + be16(pps.len() as u16) + pps
}

/// Build the avcC record.
pub fn build_avcc(sps: &[u8], pps: &[u8]) -> (r: Vec<u8>)
    ensures
        r@ == avcc_payload(sps@, pps@),
{
    let mut d: Vec<u8> = Vec::new();
    put_u8(&mut d, 1);
    put_u8(&mut d, get_or(sps, 1, 0x42));
    put_u8(&mut d, get_or(sps, 2, 0));
    put_u8(&mut d, get_or(sps, 3, 0x1e));
    put_u8(&mut d, 0xff);
    put_u8(&mut d, 0xe1);
    put_u16(&mut d, sps.len() as u16);
    put_slice(&mut d, sps);
    put_u8(&mut d, 1);
    put_u16(&mut d, pps.len() as u16);
    put_slice(&mut d, pps);
    assert(d@ =~= avcc_payload(sps@, pps@));
    d
}

/// One hvcC NAL array holding a single NAL of the given type byte.
pub open spec fn hvcc_array(type_byte: u8, nal: Seq<u8>) -> Seq<u8> {
    seq![type_byte] + be16(1) + be16(nal.len() as u16) + nal
}

fn put_hvcc_array(d: &mut Vec<u8>, type_byte: u8, nal: &[u8])
    ensures
        final(d)@ == old(d)@ + hvcc_array(type_byte, nal@),
{
    let ghost start = d@;
    put_u8(d, type_byte);
    put_u16(d, 1);
    put_u16(d, nal.len() as u16);
    put_slice(d, nal);
    assert(d@ =~= start + hvcc_array(type_byte, nal@));
}

/// The simplified hvcC payload: fixed general fields, then the VPS (when
/// present), SPS and PPS arrays.
pub open spec fn hvcc_payload(vps: Option<Seq<u8>>, sps: Seq<u8>, pps: Seq<u8>) -> Seq<u8> {
    let head = seq![1u8] + zeros(11) + be16(0xf000) + seq![0xfcu8, 0xfd, 0xf8, 0xf8] + zeros(2) + seq![0x0fu8];
    match vps {
        Some(v) => head + seq![3u8] + hvcc_array(0x20, v) + hvcc_array(0x21, sps) + hvcc_array(0x22, pps),
        None => head + seq![2u8] + hvcc_array(0x21, sps) + hvcc_array(0x22, pps),
    }
}

/// The view of an optional byte vector.
pub open spec fn opt_bytes(v: Option<Vec<u8>>) -> Option<Seq<u8>> {
    match v {
        Some(b) => Some(b@),
        None => None,
    }
}

/// Build the hvcC record.
pub fn build_hvcc(vps: &Option<Vec<u8>>, sps: &[u8], pps: &[u8]) -> (r: Vec<u8>)
    ensures
        r@ == hvcc_payload(opt_bytes(*vps), sps@, pps@),
{
    let mut d: Vec<u8> = Vec::new();
    put_u8(&mut d, 1);
    put_zeros(&mut d, 11);
    put_u16(&mut d, 0xf000);
    put_cc(&mut d, [0xfc, 0xfd, 0xf8, 0xf8]);
    put_zeros(&mut d, 2);
    put_u8(&mut d, 0x0f);
    let ghost head = d@;
    assert(head =~= seq![1u8] + zeros(11) + be16(0xf000) + seq![0xfcu8, 0xfd, 0xf8, 0xf8] + zeros(2) + seq![0x0fu8]);
    match vps {
        Some(v) => {
            put_u8(&mut d, 3);
            put_hvcc_array(&mut d, 0x20, v.as_slice());
        },
        None => {
            put_u8(&mut d, 2);
        },
    }
    put_hvcc_array(&mut d, 0x21, sps);
    put_hvcc_array(&mut d, 0x22, pps);
    d
}

/// A visual sample entry (avc1 / hvc1) of the given size in pixels with its
/// decoder configuration box.
pub open spec fn visual_entry(entry_type: Seq<u8>, width: u32, height: u32, cfg_type: Seq<u8>, cfg: Seq<u8>) -> Seq<u8> {
    be32((8 + 78 + 8 + cfg.len()) as u32) + entry_type + zeros(6) + be16(1) + zeros(16)
        + be16(width as u16) + be16(height as u16) + be32(0x48_0000) + be32(0x48_0000) + zeros(4)
        + be16(1) + zeros(32) + be16(0x18) + be16(0xffff)
        + be32((8 + cfg.len()) as u32) + cfg_type + cfg
}

/// Build a visual sample entry.
pub fn build_visual_entry(entry_type: [u8; 4], width: u32, height: u32, cfg_type: [u8; 4], cfg: &[u8]) -> (r: Vec<u8>)
    ensures
        r@ == visual_entry(cc_seq(entry_type), width, height, cc_seq(cfg_type), cfg@),
{
    let mut d: Vec<u8> = Vec::new();
    put_u32(&mut d, (cfg.len() as u128 + 94) as u32);
    put_cc(&mut d, entry_type);
    put_zeros(&mut d, 6);
    put_u16(&mut d, 1);
    put_zeros(&mut d, 16);
    put_u16(&mut d, width as u16);
    put_u16(&mut d, height as u16);
    put_u32(&mut d, 0x48_0000);
    put_u32(&mut d, 0x48_0000);
    put_zeros(&mut d, 4);
    put_u16(&mut d, 1);
    put_zeros(&mut d, 32);
    put_u16(&mut d, 0x18);
    put_u16(&mut d, 0xffff);
    put_u32(&mut d, (cfg.len() as u128 + 8) as u32);
    put_cc(&mut d, cfg_type);
    put_slice(&mut d, cfg);
    assert(d@ =~= visual_entry(cc_seq(entry_type), width, height, cc_seq(cfg_type), cfg@));
    d
}

/// The esds descriptor chain for an AAC track (ISO 14496-1 §7.2.6):
/// ES_Descriptor (ES_ID 2) > DecoderConfigDescriptor (MPEG-4 Audio, audio
/// stream, unknown bitrates) > DecoderSpecificInfo (the AudioSpecificConfig),
/// then an SLConfigDescriptor (predefined MP4).
pub open spec fn esds_payload(asc: Seq<u8>) -> Seq<u8> {
    seq![0x03u8, 25, 0, 2, 0, 0x04, 17, 0x40, 0x15] + zeros(3) + zeros(8) + seq![0x05u8, 2] + asc
        + seq![0x06u8, 1, 0x02]
}

/// The mp4a sample entry payload: channel count, 16-bit samples, the sample
/// rate in 16.16, then the esds full box.
pub open spec fn mp4a_entry(channels: u8, sample_rate: u32, asc: Seq<u8>) -> Seq<u8> {
    zeros(6) + be16(1) + zeros(8) + be16(channels as u16) + be16(16) + zeros(4)
        + be32(sample_rate << 16u32) + be32((12 + esds_payload(asc).len()) as u32) + cc_esds() + zeros(4)
        + esds_payload(asc)
}

/// Build the mp4a sample entry box.
pub fn build_mp4a(channels: u8, sample_rate: u32, asc: [u8; 2]) -> (r: Vec<u8>)
    ensures
        r@ == box_bytes(cc_mp4a(), mp4a_entry(channels, sample_rate, asc@)),
{
    let mut esds: Vec<u8> = Vec::new();
    put_cc(&mut esds, [0x03, 25, 0, 2]);
    put_cc(&mut esds, [0, 0x04, 17, 0x40]);
    put_u8(&mut esds, 0x15);
    put_zeros(&mut esds, 3);
    put_zeros(&mut esds, 8);
    put_u8(&mut esds, 0x05);
    put_u8(&mut esds, 2);
    put_u8(&mut esds, asc[0]);
    put_u8(&mut esds, asc[1]);
    put_u8(&mut esds, 0x06);
    put_u8(&mut esds, 1);
    put_u8(&mut esds, 0x02);
    assert(esds@ =~= esds_payload(asc@));
    let mut e: Vec<u8> = Vec::new();
    put_zeros(&mut e, 6);
    put_u16(&mut e, 1);
    put_zeros(&mut e, 8);
    put_u16(&mut e, channels as u16);
    put_u16(&mut e, 16);
    put_zeros(&mut e, 4);
    put_u32(&mut e, sample_rate << 16u32);
    put_u32(&mut e, (esds.len() as u128 + 12) as u32);
    put_cc(&mut e, [0x65, 0x73, 0x64, 0x73]);
    put_zeros(&mut e, 4);
    put_slice(&mut e, esds.as_slice());
    assert(e@ =~= mp4a_entry(channels, sample_rate, asc@));
    let mut d: Vec<u8> = Vec::new();
    put_box(&mut d, [0x6d, 0x70, 0x34, 0x61], e.as_slice());
    assert(d@ =~= box_bytes(cc_mp4a(), mp4a_entry(channels, sample_rate, asc@)));
    d
}

/// Parameters of an AAC audio track, as an ADTS header describes them.
#[derive(Debug, Clone, Copy, PartialEq, Eq)]
pub struct AudioTrack {
    /// MPEG-4 Audio Object Type (2 = AAC-LC).
    pub object_type: u8,
    /// Sample rate in Hz; also the track's timescale, so one AAC frame is
    /// exactly 1024 ticks.
    pub sample_rate: u32,
    pub channels: u8,
    /// The 2-byte AudioSpecificConfig carried in the esds box.
    pub asc: [u8; 2],
}

/// The stsd payload of the video track: one avc1 (H.264) or hvc1 (H.265)
/// sample entry.
pub open spec fn video_stsd(hevc: bool, width: u32, height: u32, sps: Seq<u8>, pps: Seq<u8>, vps: Option<Seq<u8>>) -> Seq<u8> {
    if hevc {
        be32(1) + visual_entry(cc_hvc1(), width, height, cc_hvcc(), hvcc_payload(vps, sps, pps))
    } else {
        be32(1) + visual_entry(cc_avc1(), width, height, cc_avcc(), avcc_payload(sps, pps))
    }
}

/// The video trak payload (track 1).
#[verifier::opaque]
pub open spec fn video_trak(hevc: bool, width: u32, height: u32, timescale: u32, sps: Seq<u8>, pps: Seq<u8>, vps: Option<Seq<u8>>) -> Seq<u8> {
    let minf = full_box_bytes(cc_vmhd(), 0, 1, zeros(8)) + box_bytes(cc_dinf(), dinf_payload())
        + box_bytes(cc_stbl(), stbl_payload(video_stsd(hevc, width, height, sps, pps, vps)));
    let mdia = full_box_bytes(cc_mdhd(), 0, 0, mdhd_payload(timescale)) + full_box_bytes(cc_hdlr(), 0, 0, hdlr_payload(false))
        + box_bytes(cc_minf(), minf);
    full_box_bytes(cc_tkhd(), 0, 7, tkhd_payload(1, 0, width, height)) + box_bytes(cc_mdia(), mdia)
}

/// The audio trak payload (track 2).
#[verifier::opaque]
pub open spec fn audio_trak(a: AudioTrack) -> Seq<u8> {
    let stsd = be32(1) + box_bytes(cc_mp4a(), mp4a_entry(a.channels, a.sample_rate, a.asc@));
    let minf = full_box_bytes(cc_smhd(), 0, 0, zeros(4)) + box_bytes(cc_dinf(), dinf_payload())
        + box_bytes(cc_stbl(), stbl_payload(stsd));
    let mdia = full_box_bytes(cc_mdhd(), 0, 0, mdhd_payload(a.sample_rate)) + full_box_bytes(cc_hdlr(), 0, 0, hdlr_payload(true))
        + box_bytes(cc_minf(), minf);
    full_box_bytes(cc_tkhd(), 0, 7, tkhd_payload(2, 0x100, 0, 0)) + box_bytes(cc_mdia(), mdia)
}

/// The trex payload of a track: default sample description 1, no other
/// defaults.
pub open spec fn trex_payload(track_id: u32) -> Seq<u8> {
    be32(track_id) + be32(1) + zeros(12)
}

/// The mvex payload: one trex per track.
pub open spec fn mvex_payload(audio: bool) -> Seq<u8> {
    if audio {
        full_box_bytes(cc_trex(), 0, 0, trex_payload(1)) + full_box_bytes(cc_trex(), 0, 0, trex_payload(2))
    } else {
        full_box_bytes(cc_trex(), 0, 0, trex_payload(1))
    }
}

/// The traks of an init segment: video, then audio when there is one.
pub open spec fn init_traks(hevc: bool, width: u32, height: u32, timescale: u32, sps: Seq<u8>, pps: Seq<u8>, vps: Option<Seq<u8>>, audio: Option<AudioTrack>) -> Seq<u8> {
    match audio {
        Some(a) => box_bytes(cc_trak(), video_trak(hevc, width, height, timescale, sps, pps, vps)) + box_bytes(cc_trak(), audio_trak(a)),
        None => box_bytes(cc_trak(), video_trak(hevc, width, height, timescale, sps, pps, vps)),
    }
}

/// An fMP4 initialization segment: ftyp, then moov with mvhd, the video
/// trak, the audio trak when there is one, and mvex.
#[verifier::opaque]
pub open spec fn init_segment_bytes(
    hevc: bool,
    width: u32,
    height: u32,
    timescale: u32,
    sps: Seq<u8>,
    pps: Seq<u8>,
    vps: Option<Seq<u8>>,
    audio: Option<AudioTrack>,
) -> Seq<u8> {
    let moov = full_box_bytes(cc_mvhd(), 0, 0, mvhd_payload(timescale))
        + init_traks(hevc, width, height, timescale, sps, pps, vps, audio)
        + box_bytes(cc_mvex(), mvex_payload(audio is Some));
    box_bytes(cc_ftyp(), ftyp_payload()) + box_bytes(cc_moov(), moov)
}

fn build_video_trak(hevc: bool, width: u32, height: u32, timescale: u32, sps: &[u8], pps: &[u8], vps: &Option<Vec<u8>>) -> (r: Vec<u8>)
    ensures
        r@ == video_trak(hevc, width, height, timescale, sps@, pps@, opt_bytes(*vps)),
{
    reveal(video_trak);
    let mut stsd: Vec<u8> = Vec::new();
    put_u32(&mut stsd, 1);
    if hevc {
        let cfg = build_hvcc(vps, sps, pps);
        let entry = build_visual_entry([0x68, 0x76, 0x63, 0x31], width, height, [0x68, 0x76, 0x63, 0x43], cfg.as_slice());
        put_slice(&mut stsd, entry.as_slice());
    } else {
        let cfg = build_avcc(sps, pps);
        let entry = build_visual_entry([0x61, 0x76, 0x63, 0x31], width, height, [0x61, 0x76, 0x63, 0x43], cfg.as_slice());
        put_slice(&mut stsd, entry.as_slice());
    }
    assert(stsd@ =~= video_stsd(hevc, width, height, sps@, pps@, opt_bytes(*vps)));
    let stbl = build_stbl(stsd.as_slice());
    let dinf = build_dinf();
    let z8: [u8; 8] = [0, 0, 0, 0, 0, 0, 0, 0];
    assert(z8@ =~= zeros(8));
    let mut minf: Vec<u8> = Vec::new();
    put_full_box(&mut minf, [0x76, 0x6d, 0x68, 0x64], 0, 1, z8.as_slice());
    put_box(&mut minf, [0x64, 0x69, 0x6e, 0x66], dinf.as_slice());
    put_box(&mut minf, [0x73, 0x74, 0x62, 0x6c], stbl.as_slice());
    let mdhd = build_mdhd(timescale);
    let hdlr = build_hdlr(false);
    let mut mdia: Vec<u8> = Vec::new();
    put_full_box(&mut mdia, [0x6d, 0x64, 0x68, 0x64], 0, 0, mdhd.as_slice());
    put_full_box(&mut mdia, [0x68, 0x64, 0x6c, 0x72], 0, 0, hdlr.as_slice());
    put_box(&mut mdia, [0x6d, 0x69, 0x6e, 0x66], minf.as_slice());
    let tkhd = build_tkhd(1, 0, width, height);
    let mut trak: Vec<u8> = Vec::new();
    put_full_box(&mut trak, [0x74, 0x6b, 0x68, 0x64], 0, 7, tkhd.as_slice());
    put_box(&mut trak, [0x6d, 0x64, 0x69, 0x61], mdia.as_slice());
    assert(minf@ =~= full_box_bytes(cc_vmhd(), 0, 1, zeros(8)) + box_bytes(cc_dinf(), dinf_payload())
        + box_bytes(cc_stbl(), stbl_payload(video_stsd(hevc, width, height, sps@, pps@, opt_bytes(*vps)))));
    assert(mdia@ =~= full_box_bytes(cc_mdhd(), 0, 0, mdhd_payload(timescale)) + full_box_bytes(cc_hdlr(), 0, 0, hdlr_payload(false))
        + box_bytes(cc_minf(), minf@));
    assert(trak@ =~= video_trak(hevc, width, height, timescale, sps@, pps@, opt_bytes(*vps)));
    trak
}

fn build_audio_trak(a: AudioTrack) -> (r: Vec<u8>)
    ensures
        r@ == audio_trak(a),
{
    reveal(audio_trak);
    let mp4a = build_mp4a(a.channels, a.sample_rate, a.asc);
    let mut stsd: Vec<u8> = Vec::new();
    put_u32(&mut stsd, 1);
    put_slice(&mut stsd, mp4a.as_slice());
    let stbl = build_stbl(stsd.as_slice());
    let dinf = build_dinf();
    let z4: [u8; 4] = [0, 0, 0, 0];
    assert(z4@ =~= zeros(4));
    let mut minf: Vec<u8> = Vec::new();
    put_full_box(&mut minf, [0x73, 0x6d, 0x68, 0x64], 0, 0, z4.as_slice());
    put_box(&mut minf, [0x64, 0x69, 0x6e, 0x66], dinf.as_slice());
    put_box(&mut minf, [0x73, 0x74, 0x62, 0x6c], stbl.as_slice());
    let mdhd = build_mdhd(a.sample_rate);
    let hdlr = build_hdlr(true);
    let mut mdia: Vec<u8> = Vec::new();
    put_full_box(&mut mdia, [0x6d, 0x64, 0x68, 0x64], 0, 0, mdhd.as_slice());
    put_full_box(&mut mdia, [0x68, 0x64, 0x6c, 0x72], 0, 0, hdlr.as_slice());
    put_box(&mut mdia, [0x6d, 0x69, 0x6e, 0x66], minf.as_slice());
    let tkhd = build_tkhd(2, 0x100, 0, 0);
    let mut trak: Vec<u8> = Vec::new();
    put_full_box(&mut trak, [0x74, 0x6b, 0x68, 0x64], 0, 7, tkhd.as_slice());
    put_box(&mut trak, [0x6d, 0x64, 0x69, 0x61], mdia.as_slice());
    assert(stsd@ =~= be32(1) + box_bytes(cc_mp4a(), mp4a_entry(a.channels, a.sample_rate, a.asc@)));
    assert(minf@ =~= full_box_bytes(cc_smhd(), 0, 0, zeros(4)) + box_bytes(cc_dinf(), dinf_payload())
        + box_bytes(cc_stbl(), stbl_payload(stsd@)));
    assert(mdia@ =~= full_box_bytes(cc_mdhd(), 0, 0, mdhd_payload(a.sample_rate)) + full_box_bytes(cc_hdlr(), 0, 0, hdlr_payload(true))
        + box_bytes(cc_minf(), minf@));
    assert(trak@ =~= audio_trak(a));
    trak
}

fn build_trex(d: &mut Vec<u8>, track_id: u32)
    ensures
        final(d)@ == old(d)@ + full_box_bytes(cc_trex(), 0, 0, trex_payload(track_id)),
{
    let mut t: Vec<u8> = Vec::new();
    put_u32(&mut t, track_id);
    put_u32(&mut t, 1);
    put_zeros(&mut t, 12);
    assert(t@ =~= trex_payload(track_id));
    put_full_box(d, [0x74, 0x72, 0x65, 0x78], 0, 0, t.as_slice());
    assert(cc_seq([0x74, 0x72, 0x65, 0x78]) =~= cc_trex());
}

/// Build an fMP4 initialization segment.
pub fn build_init_segment(
    hevc: bool,
    width: u32,
    height: u32,
    timescale: u32,
    sps: &[u8],
    pps: &[u8],
    vps: &Option<Vec<u8>>,
    audio: Option<AudioTrack>,
) -> (r: Vec<u8>)
    ensures
        r@ == init_segment_bytes(hevc, width, height, timescale, sps@, pps@, opt_bytes(*vps), audio),
{
    reveal(init_segment_bytes);
    let ghost traks_spec = init_traks(hevc, width, height, timescale, sps@, pps@, opt_bytes(*vps), audio);
    let vtrak = build_video_trak(hevc, width, height, timescale, sps, pps, vps);
    let mut traks: Vec<u8> = Vec::new();
    put_box(&mut traks, [0x74, 0x72, 0x61, 0x6b], vtrak.as_slice());
    let mut mvex: Vec<u8> = Vec::new();
    build_trex(&mut mvex, 1);
    match audio {
        Some(a) => {
            let atrak = build_audio_trak(a);
            put_box(&mut traks, [0x74, 0x72, 0x61, 0x6b], atrak.as_slice());
            build_trex(&mut mvex, 2);
        },
        None => {},
    }
    assert(cc_seq([0x74, 0x72, 0x61, 0x6b]) =~= cc_trak());
    assert(traks@ =~= traks_spec);
    assert(mvex@ =~= mvex_payload(audio is Some));
    let mvhd = build_mvhd(timescale);
    let mut moov: Vec<u8> = Vec::new();
    put_full_box(&mut moov, [0x6d, 0x76, 0x68, 0x64], 0, 0, mvhd.as_slice());
    put_slice(&mut moov, traks.as_slice());
    put_box(&mut moov, [0x6d, 0x76, 0x65, 0x78], mvex.as_slice());
    assert(cc_seq([0x6d, 0x76, 0x68, 0x64]) =~= cc_mvhd());
    assert(cc_seq([0x6d, 0x76, 0x65, 0x78]) =~= cc_mvex());
    assert(moov@ =~= full_box_bytes(cc_mvhd(), 0, 0, mvhd_payload(timescale)) + traks_spec
        + box_bytes(cc_mvex(), mvex_payload(audio is Some)));
    let ftyp = build_ftyp();
    let mut out: Vec<u8> = Vec::new();
    put_box(&mut out, [0x66, 0x74, 0x79, 0x70], ftyp.as_slice());
    put_box(&mut out, [0x6d, 0x6f, 0x6f, 0x76], moov.as_slice());
    assert(cc_seq([0x66, 0x74, 0x79, 0x70]) =~= cc_ftyp());
    assert(cc_seq([0x6d, 0x6f, 0x6f, 0x76]) =~= cc_moov());
    assert(out@ =~= init_segment_bytes(hevc, width, height, timescale, sps@, pps@, opt_bytes(*vps), audio));
    out
}

/// A completed access unit (frame): one or more Annex B NALs that share a
/// decode timestamp (in track timescale ticks).
pub struct SegmentSample {
    pub nals: Vec<Vec<u8>>,
    pub timestamp: u64,
    pub is_keyframe: bool,
}

/// The value of a [`SegmentSample`].
pub struct SampleView {
    pub nals: Seq<Seq<u8>>,
    pub timestamp: u64,
    pub is_keyframe: bool,
}

impl View for SegmentSample {
    type V = SampleView;

    open spec fn view(&self) -> SampleView {
        SampleView { nals: self.nals@.map_values(|n: Vec<u8>| n@), timestamp: self.timestamp, is_keyframe: self.is_keyframe }
    }
}

/// One AAC frame, ADTS header stripped, timestamp in audio-timescale ticks.
pub struct AudioSample {
    pub data: Vec<u8>,
    pub timestamp: u64,
}

impl View for AudioSample {
    type V = (Seq<u8>, u64);

    open spec fn view(&self) -> (Seq<u8>, u64) {
        (self.data@, self.timestamp)
    }
}

/// The views of a list of samples.
pub open spec fn samples_view(v: Seq<SegmentSample>) -> Seq<SampleView> {
    v.map_values(|s: SegmentSample| s@)
}

/// The views of a list of audio samples.
pub open spec fn audio_view(v: Seq<AudioSample>) -> Seq<(Seq<u8>, u64)> {
    v.map_values(|s: AudioSample| s@)
}

/// The NAL unit of an Annex B NAL, without its start code.
pub open spec fn nal_content(nal: Seq<u8>) -> Seq<u8> {
    nal.subrange(start_code_len(nal), nal.len() as int)
}

/// The first `k` NALs of a sample, each as a 4-byte length and the NAL
/// unit (Annex B to AVCC).
pub open spec fn sample_payload(nals: Seq<Seq<u8>>, k: int) -> Seq<u8>
    decreases k,
{
    if k <= 0 {
        seq![]
    } else {
        sample_payload(nals, k - 1) + be32(nal_content(nals[k - 1]).len() as u32) + nal_content(nals[k - 1])
    }
}

/// The length-prefixed NALs of the first `k` samples, back to back.
pub open spec fn video_mdat(samples: Seq<SampleView>, k: int) -> Seq<u8>
    decreases k,
{
    if k <= 0 {
        seq![]
    } else {
        video_mdat(samples, k - 1) + sample_payload(samples[k - 1].nals, samples[k - 1].nals.len() as int)
    }
}

/// The duration of sample `i` in ticks: the gap to the next sample's
/// timestamp, or to `next_start` for the last sample, at least 1.
pub open spec fn sample_duration(samples: Seq<SampleView>, i: int, next_start: u64) -> u64 {
    let next_ts = if i + 1 < samples.len() { samples[i + 1].timestamp } else { next_start };
    let gap = if next_ts > samples[i].timestamp { (next_ts - samples[i].timestamp) as u64 } else { 0u64 };
    if gap < 1 { 1u64 } else { gap }
}

/// Sample flags: sync for keyframes, non-sync (depends on others) otherwise.
pub open spec fn sample_flags(is_keyframe: bool) -> u32 {
    if is_keyframe { 0x0200_0000u32 } else { 0x0101_0000u32 }
}

/// The trun entries (duration, size, flags) of the first `k` samples.
pub open spec fn trun_entries(samples: Seq<SampleView>, next_start: u64, k: int) -> Seq<u8>
    decreases k,
{
    if k <= 0 {
        seq![]
    } else {
        let i = k - 1;
        trun_entries(samples, next_start, k - 1) + be32(sample_duration(samples, i, next_start) as u32)
            + be32(sample_payload(samples[i].nals, samples[i].nals.len() as int).len() as u32)
            + be32(sample_flags(samples[i].is_keyframe))
    }
}

/// The video traf payload: track 1 with default-base-is-moof, the base
/// decode time, and a trun with data offset, durations, sizes and flags.
pub open spec fn video_traf(samples: Seq<SampleView>, base_time: u64, data_offset: u32, next_start: u64) -> Seq<u8> {
    full_box_bytes(cc_tfhd(), 0, 0x02_0000, be32(1)) + full_box_bytes(cc_tfdt(), 1, 0, be64(base_time))
        + full_box_bytes(cc_trun(), 0, 0x0701,
            be32(samples.len() as u32) + be32(data_offset) + trun_entries(samples, next_start, samples.len() as int))
}

/// The audio trun entries of the first `k` frames: 1024 ticks each and the
/// frame size.
pub open spec fn audio_trun_entries(audio: Seq<(Seq<u8>, u64)>, k: int) -> Seq<u8>
    decreases k,
{
    if k <= 0 {
        seq![]
    } else {
        audio_trun_entries(audio, k - 1) + be32(1024) + be32(audio[k - 1].0.len() as u32)
    }
}

/// The audio traf payload: track 2, the first frame's decode time (0 when
/// there is none), and a trun of constant 1024-tick frames.
pub open spec fn audio_traf(audio: Seq<(Seq<u8>, u64)>, data_offset: u32) -> Seq<u8> {
    let base: u64 = if audio.len() > 0 { audio[0].1 } else { 0 };
    full_box_bytes(cc_tfhd(), 0, 0x02_0000, be32(2)) + full_box_bytes(cc_tfdt(), 1, 0, be64(base))
        + full_box_bytes(cc_trun(), 0, 0x0301,
            be32(audio.len() as u32) + be32(data_offset) + audio_trun_entries(audio, audio.len() as int))
}

/// The raw frames of the first `k` audio samples, back to back.
pub open spec fn audio_mdat(audio: Seq<(Seq<u8>, u64)>, k: int) -> Seq<u8>
    decreases k,
{
    if k <= 0 {
        seq![]
    } else {
        audio_mdat(audio, k - 1) + audio[k - 1].0
    }
}

/// The size of a moof with `n` video samples and `na` audio frames (no
/// audio traf when `na` is 0).
pub open spec fn moof_size(n: int, na: int) -> int {
    24 + 64 + 12 * n + if na > 0 { 64 + 8 * na } else { 0 }
}

/// A media segment: moof (mfhd with sequence + 1, the video traf, the audio
/// traf when audio is muxed) and mdat (video NALs, then the audio frames).
/// Data offsets count from the start of the moof.
#[verifier::opaque]
pub open spec fn media_segment_bytes(
    sequence: u64,
    samples: Seq<SampleView>,
    audio: Seq<(Seq<u8>, u64)>,
    with_audio: bool,
    start_time: u64,
    next_start: u64,
) -> Seq<u8> {
    let na: int = if with_audio { audio.len() as int } else { 0 };
    let size = moof_size(samples.len() as int, na);
    let vmdat = video_mdat(samples, samples.len() as int);
    let video_offset = (size + 8) as u32;
    let audio_offset = (size + 8 + vmdat.len()) as u32;
    let moof = full_box_bytes(cc_mfhd(), 0, 0, be32(((sequence as u32) + 1) as u32))
        + box_bytes(cc_traf(), video_traf(samples, start_time, video_offset, next_start))
        + if na > 0 { box_bytes(cc_traf(), audio_traf(audio, audio_offset)) } else { seq![] };
    let mdat = if na > 0 { vmdat + audio_mdat(audio, audio.len() as int) } else { vmdat };
    box_bytes(cc_moof(), moof) + box_bytes(cc_mdat(), mdat)
}

/// Append the length-prefixed NAL units of a sample.
fn put_sample_payload(d: &mut Vec<u8>, nals: &Vec<Vec<u8>>)
    ensures
        final(d)@ == old(d)@ + sample_payload(nals@.map_values(|n: Vec<u8>| n@), nals@.len() as int),
{
    let ghost nv = nals@.map_values(|n: Vec<u8>| n@);
    let ghost start = d@;
    let mut j: usize = 0;
    assert(start + sample_payload(nv, 0) =~= start);
    while j < nals.len()
        invariant
            j <= nals@.len(),
            nv == nals@.map_values(|n: Vec<u8>| n@),
            d@ == start + sample_payload(nv, j as int),
        decreases nals.len() - j,
    {
        let nal = &nals[j];
        let sc = leading_start_code_len(nal.as_slice());
        proof {
            if sc > 0 {
                assert(sc <= nal@.len());
            }
        }
        let content = &nal.as_slice()[sc..nal.len()];
        assert(content@ =~= nal_content(nv[j as int]));
        put_u32(d, content.len() as u32);
        put_slice(d, content);
        j += 1;
        assert(d@ =~= start + sample_payload(nv, j as int));
    }
}

/// Build the video part of an mdat, and each sample's size in it.
fn build_video_mdat(samples: &Vec<SegmentSample>) -> (r: (Vec<u8>, Vec<u32>))
    ensures
        r.0@ == video_mdat(samples_view(samples@), samples@.len() as int),
        r.1@.len() == samples@.len(),
        forall|i: int| 0 <= i < samples@.len() ==> r.1@[i] == (sample_payload(samples_view(samples@)[i].nals, samples_view(samples@)[i].nals.len() as int).len() as u32),
{
    let ghost sv = samples_view(samples@);
    let mut d: Vec<u8> = Vec::new();
    let mut sizes: Vec<u32> = Vec::new();
    let mut i: usize = 0;
    while i < samples.len()
        invariant
            i <= samples@.len(),
            sv == samples_view(samples@),
            d@ == video_mdat(sv, i as int),
            sizes@.len() == i,
            forall|k: int| 0 <= k < i ==> sizes@[k] == (sample_payload(sv[k].nals, sv[k].nals.len() as int).len() as u32),
        decreases samples.len() - i,
    {
        let before = d.len();
        put_sample_payload(&mut d, &samples[i].nals);
        let after = d.len();
        sizes.push((after - before) as u32);
        i += 1;
    }
    (d, sizes)
}

/// Build the video trun payload.
fn build_video_trun(samples: &Vec<SegmentSample>, sizes: &Vec<u32>, data_offset: u32, next_start: u64) -> (r: Vec<u8>)
    requires
        sizes@.len() == samples@.len(),
        forall|i: int| 0 <= i < samples@.len() ==> sizes@[i] == (sample_payload(samples_view(samples@)[i].nals, samples_view(samples@)[i].nals.len() as int).len() as u32),
    ensures
        r@ == be32(samples@.len() as u32) + be32(data_offset) + trun_entries(samples_view(samples@), next_start, samples@.len() as int),
{
    let ghost sv = samples_view(samples@);
    let n = samples.len();
    let mut d: Vec<u8> = Vec::new();
    put_u32(&mut d, n as u32);
    put_u32(&mut d, data_offset);
    let ghost head = d@;
    assert(head + trun_entries(sv, next_start, 0) =~= head);
    let mut i: usize = 0;
    while i < n
        invariant
            i <= n == samples@.len() == sizes@.len(),
            sv == samples_view(samples@),
            forall|k: int| 0 <= k < samples@.len() ==> sizes@[k] == (sample_payload(sv[k].nals, sv[k].nals.len() as int).len() as u32),
            d@ == head + trun_entries(sv, next_start, i as int),
        decreases n - i,
    {
        let ts = samples[i].timestamp;
        let next_ts = if i + 1 < n { samples[i + 1].timestamp } else { next_start };
        let gap = if next_ts > ts { next_ts - ts } else { 0 };
        let dur = if gap < 1 { 1 } else { gap };
        put_u32(&mut d, dur as u32);
        put_u32(&mut d, sizes[i]);
        put_u32(&mut d, if samples[i].is_keyframe { 0x0200_0000 } else { 0x0101_0000 });
        i += 1;
        assert(d@ =~= head + trun_entries(sv, next_start, i as int));
    }
    d
}

/// Build the audio traf payload.
fn build_audio_traf(audio: &Vec<AudioSample>, data_offset: u32) -> (r: Vec<u8>)
    ensures
        r@ == audio_traf(audio_view(audio@), data_offset),
{
    let ghost av = audio_view(audio@);
    let mut tfhd: Vec<u8> = Vec::new();
    put_u32(&mut tfhd, 2);
    let mut tfdt: Vec<u8> = Vec::new();
    let base: u64 = if audio.len() > 0 { audio[0].timestamp } else { 0 };
    put_u64(&mut tfdt, base);
    let n = audio.len();
    let mut trun: Vec<u8> = Vec::new();
    put_u32(&mut trun, n as u32);
    put_u32(&mut trun, data_offset);
    let ghost head = trun@;
    assert(head + audio_trun_entries(av, 0) =~= head);
    let mut i: usize = 0;
    while i < n
        invariant
            i <= n == audio@.len(),
            av == audio_view(audio@),
            trun@ == head + audio_trun_entries(av, i as int),
        decreases n - i,
    {
        put_u32(&mut trun, 1024);
        put_u32(&mut trun, audio[i].data.len() as u32);
        i += 1;
        assert(trun@ =~= head + audio_trun_entries(av, i as int));
    }
    let mut d: Vec<u8> = Vec::new();
    put_full_box(&mut d, [0x74, 0x66, 0x68, 0x64], 0, 0x02_0000, tfhd.as_slice());
    put_full_box(&mut d, [0x74, 0x66, 0x64, 0x74], 1, 0, tfdt.as_slice());
    put_full_box(&mut d, [0x74, 0x72, 0x75, 0x6e], 0, 0x0301, trun.as_slice());
    assert(tfhd@ =~= be32(2));
    assert(tfdt@ =~= be64(base));
    assert(cc_seq([0x74, 0x66, 0x68, 0x64]) =~= cc_tfhd());
    assert(cc_seq([0x74, 0x66, 0x64, 0x74]) =~= cc_tfdt());
    assert(cc_seq([0x74, 0x72, 0x75, 0x6e]) =~= cc_trun());
    assert(d@ =~= audio_traf(av, data_offset));
    d
}

/// Append the raw audio frames.
fn put_audio_frames(d: &mut Vec<u8>, audio: &Vec<AudioSample>)
    ensures
        final(d)@ == old(d)@ + audio_mdat(audio_view(audio@), audio@.len() as int),
{
    let ghost av = audio_view(audio@);
    let ghost start = d@;
    assert(start + audio_mdat(av, 0) =~= start);
    let mut i: usize = 0;
    while i < audio.len()
        invariant
            i <= audio@.len(),
            av == audio_view(audio@),
            d@ == start + audio_mdat(av, i as int),
        decreases audio.len() - i,
    {
        put_slice(d, audio[i].data.as_slice());
        i += 1;
        assert(d@ =~= start + audio_mdat(av, i as int));
    }
}

/// Build a media segment (moof + mdat).
pub fn build_media_segment(
    sequence: u64,
    samples: &Vec<SegmentSample>,
    audio: &Vec<AudioSample>,
    with_audio: bool,
    start_time: u64,
    next_start: u64,
) -> (r: Vec<u8>)
    ensures
        r@ == media_segment_bytes(sequence, samples_view(samples@), audio_view(audio@), with_audio, start_time, next_start),
{
    reveal(media_segment_bytes);
    let ghost sv = samples_view(samples@);
    let ghost av = audio_view(audio@);
    let n = samples.len();
    let na: usize = if with_audio { audio.len() } else { 0 };
    let (mut mdat, sizes) = build_video_mdat(samples);
    let vmdat_len = mdat.len();
    let size: u128 = 88 + 12 * (n as u128) + if na > 0 { 64 + 8 * (na as u128) } else { 0 };
    let video_offset = (size + 8) as u32;
    let audio_offset = (size + 8 + vmdat_len as u128) as u32;
    let mut mfhd: Vec<u8> = Vec::new();
    put_u32(&mut mfhd, ((sequence as u32) as u64 + 1) as u32);
    let mut vtraf: Vec<u8> = Vec::new();
    let mut tfhd: Vec<u8> = Vec::new();
    put_u32(&mut tfhd, 1);
    let mut tfdt: Vec<u8> = Vec::new();
    put_u64(&mut tfdt, start_time);
    let trun = build_video_trun(samples, &sizes, video_offset, next_start);
    put_full_box(&mut vtraf, [0x74, 0x66, 0x68, 0x64], 0, 0x02_0000, tfhd.as_slice());
    put_full_box(&mut vtraf, [0x74, 0x66, 0x64, 0x74], 1, 0, tfdt.as_slice());
    put_full_box(&mut vtraf, [0x74, 0x72, 0x75, 0x6e], 0, 0x0701, trun.as_slice());
    assert(tfhd@ =~= be32(1));
    assert(tfdt@ =~= be64(start_time));
    assert(cc_seq([0x74, 0x66, 0x68, 0x64]) =~= cc_tfhd());
    assert(cc_seq([0x74, 0x66, 0x64, 0x74]) =~= cc_tfdt());
    assert(cc_seq([0x74, 0x72, 0x75, 0x6e]) =~= cc_trun());
    assert(vtraf@ =~= video_traf(sv, start_time, video_offset, next_start));
    let mut moof: Vec<u8> = Vec::new();
    put_full_box(&mut moof, [0x6d, 0x66, 0x68, 0x64], 0, 0, mfhd.as_slice());
    put_box(&mut moof, [0x74, 0x72, 0x61, 0x66], vtraf.as_slice());
    assert(cc_seq([0x6d, 0x66, 0x68, 0x64]) =~= cc_mfhd());
    assert(cc_seq([0x74, 0x72, 0x61, 0x66]) =~= cc_traf());
    assert(mfhd@ =~= be32(((sequence as u32) + 1) as u32));
    let ghost moof_head = moof@;
    if na > 0 {
        let atraf = build_audio_traf(audio, audio_offset);
        put_box(&mut moof, [0x74, 0x72, 0x61, 0x66], atraf.as_slice());
        put_audio_frames(&mut mdat, audio);
    } else {
        assert(moof@ =~= moof_head + Seq::<u8>::empty());
    }
    let mut out: Vec<u8> = Vec::new();
    put_box(&mut out, [0x6d, 0x6f, 0x6f, 0x66], moof.as_slice());
    put_box(&mut out, [0x6d, 0x64, 0x61, 0x74], mdat.as_slice());
    assert(cc_seq([0x6d, 0x6f, 0x6f, 0x66]) =~= cc_moof());
    assert(cc_seq([0x6d, 0x64, 0x61, 0x74]) =~= cc_mdat());
    assert(out@ =~= media_segment_bytes(sequence, sv, av, with_audio, start_time, next_start));
    out
}

proof fn lemma_trun_entries_len(samples: Seq<SampleView>, next_start: u64, k: int)
    requires
        0 <= k,
    ensures
        trun_entries(samples, next_start, k).len() == 12 * k,
    decreases k,
{
    if k > 0 {
        lemma_trun_entries_len(samples, next_start, k - 1);
    }
}

proof fn lemma_audio_trun_entries_len(audio: Seq<(Seq<u8>, u64)>, k: int)
    requires
        0 <= k,
    ensures
        audio_trun_entries(audio, k).len() == 8 * k,
    decreases k,
{
    if k > 0 {
        lemma_audio_trun_entries_len(audio, k - 1);
    }
}

/// The sum of the trun durations of the first `k` samples.
pub open spec fn total_duration(samples: Seq<SampleView>, next_start: u64, k: int) -> int
    decreases k,
{
    if k <= 0 {
        0
    } else {
        total_duration(samples, next_start, k - 1) + sample_duration(samples, k - 1, next_start)
    }
}

/// Sample timestamps increase strictly and stay below `next_start`.
pub open spec fn strictly_increasing_before(samples: Seq<SampleView>, next_start: u64) -> bool {
    &&& forall|i: int, j: int| 0 <= i < j < samples.len() ==> samples[i].timestamp < samples[j].timestamp
    &&& forall|i: int| 0 <= i < samples.len() ==> samples[i].timestamp < next_start
}

proof fn lemma_total_duration_prefix(samples: Seq<SampleView>, next_start: u64, k: int)
    requires
        0 <= k < samples.len(),
        strictly_increasing_before(samples, next_start),
    ensures
        total_duration(samples, next_start, k) == samples[k].timestamp - samples[0].timestamp,
    decreases k,
{
    if k > 0 {
        lemma_total_duration_prefix(samples, next_start, k - 1);
        assert(samples[k - 1].timestamp < samples[k].timestamp);
    }
}

/// Segment contiguity: when sample timestamps increase strictly and stay
/// below the next segment's start, the trun durations of a segment add up
/// to exactly the span from its first sample to the next segment's start,
/// so the segment ends where the next one begins.
pub proof fn lemma_durations_reach_next_start(samples: Seq<SampleView>, next_start: u64)
    requires
        samples.len() > 0,
        strictly_increasing_before(samples, next_start),
    ensures
        total_duration(samples, next_start, samples.len() as int) == next_start - samples[0].timestamp,
{
    let n = samples.len() as int;
    lemma_total_duration_prefix(samples, next_start, n - 1);
    assert(samples[n - 1].timestamp < next_start);
}

/// Data offsets point at the media data: in a media segment the video
/// samples' length-prefixed NALs start right after the moof box and the
/// mdat header, at the moof size plus 8 that the video trun's data offset
/// records; the audio frames (when muxed) follow them, where the audio
/// trun's data offset points.
pub proof fn lemma_data_offsets_point_into_mdat(
    sequence: u64,
    samples: Seq<SampleView>,
    audio: Seq<(Seq<u8>, u64)>,
    with_audio: bool,
    start_time: u64,
    next_start: u64,
)
    ensures
        ({
            let bytes = media_segment_bytes(sequence, samples, audio, with_audio, start_time, next_start);
            let na: int = if with_audio { audio.len() as int } else { 0 };
            let off = moof_size(samples.len() as int, na) + 8;
            let vmdat = video_mdat(samples, samples.len() as int);
            &&& bytes.subrange(off, off + vmdat.len()) == vmdat
            &&& na > 0 ==> bytes.subrange(off + vmdat.len(), bytes.len() as int) == audio_mdat(audio, audio.len() as int)
            &&& na == 0 ==> bytes.len() == off + vmdat.len()
        }),
{
    reveal(media_segment_bytes);
    let n = samples.len() as int;
    let na: int = if with_audio { audio.len() as int } else { 0 };
    lemma_trun_entries_len(samples, next_start, n);
    lemma_audio_trun_entries_len(audio, audio.len() as int);
    let bytes = media_segment_bytes(sequence, samples, audio, with_audio, start_time, next_start);
    let size = moof_size(n, na);
    let vmdat = video_mdat(samples, n);
    let video_offset = (size + 8) as u32;
    let audio_offset = (size + 8 + vmdat.len()) as u32;
    let vt = video_traf(samples, start_time, video_offset, next_start);
    assert(vt.len() == 16 + 20 + 12 + 8 + 12 * n);
    let moof = full_box_bytes(cc_mfhd(), 0, 0, be32(((sequence as u32) + 1) as u32))
        + box_bytes(cc_traf(), vt)
        + if na > 0 { box_bytes(cc_traf(), audio_traf(audio, audio_offset)) } else { seq![] };
    if na > 0 {
        assert(audio_traf(audio, audio_offset).len() == 16 + 20 + 12 + 8 + 8 * na);
    }
    assert(moof.len() == size - 8);
    let mdat = if na > 0 { vmdat + audio_mdat(audio, audio.len() as int) } else { vmdat };
    assert(bytes == box_bytes(cc_moof(), moof) + box_bytes(cc_mdat(), mdat));
    assert(bytes.subrange(size + 8, size + 8 + vmdat.len()) =~= vmdat);
    if na > 0 {
        assert(bytes.subrange(size + 8 + vmdat.len(), bytes.len() as int) =~= audio_mdat(audio, audio.len() as int));
    }
}

proof fn lemma_trun_entry_flags(samples: Seq<SampleView>, next_start: u64, k: int, i: int)
    requires
        0 <= i < k,
    ensures
        trun_entries(samples, next_start, k).subrange(12 * i + 8, 12 * i + 12) == be32(sample_flags(samples[i].is_keyframe)),
    decreases k,
{
    lemma_trun_entries_len(samples, next_start, k - 1);
    let prev = trun_entries(samples, next_start, k - 1);
    let e = trun_entries(samples, next_start, k);
    if i < k - 1 {
        lemma_trun_entry_flags(samples, next_start, k - 1, i);
        assert(e.subrange(12 * i + 8, 12 * i + 12) =~= prev.subrange(12 * i + 8, 12 * i + 12));
    } else {
        assert(e.subrange(12 * i + 8, 12 * i + 12) =~= be32(sample_flags(samples[i].is_keyframe)));
    }
}

/// The video trun entries sit at byte 88 of a media segment: after the
/// moof header, the mfhd, the traf header, the tfhd, the tfdt and the
/// trun's header, sample count and data offset.
proof fn lemma_trun_entries_in_segment(
    sequence: u64,
    samples: Seq<SampleView>,
    audio: Seq<(Seq<u8>, u64)>,
    with_audio: bool,
    start_time: u64,
    next_start: u64,
)
    ensures
        ({
            let bytes = media_segment_bytes(sequence, samples, audio, with_audio, start_time, next_start);
            let e = trun_entries(samples, next_start, samples.len() as int);
            &&& bytes.len() >= 88 + e.len()
            &&& bytes.subrange(88, 88 + e.len() as int) == e
        }),
{
    reveal(media_segment_bytes);
    let n = samples.len() as int;
    let na: int = if with_audio { audio.len() as int } else { 0 };
    lemma_trun_entries_len(samples, next_start, n);
    let e = trun_entries(samples, next_start, n);
    let el = e.len() as int;
    let size = moof_size(n, na);
    let vmdat = video_mdat(samples, n);
    let video_offset = (size + 8) as u32;
    let audio_offset = (size + 8 + vmdat.len()) as u32;
    let payload = be32(samples.len() as u32) + be32(video_offset) + e;
    let trun = full_box_bytes(cc_trun(), 0, 0x0701, payload);
    assert(trun.subrange(20, 20 + el) =~= e);
    let t1 = full_box_bytes(cc_tfhd(), 0, 0x02_0000, be32(1));
    let t2 = full_box_bytes(cc_tfdt(), 1, 0, be64(start_time));
    let vt = video_traf(samples, start_time, video_offset, next_start);
    assert(vt == t1 + t2 + trun);
    assert(vt.subrange(56, 56 + el) =~= trun.subrange(20, 20 + el));
    let traf = box_bytes(cc_traf(), vt);
    assert(traf.subrange(64, 64 + el) =~= vt.subrange(56, 56 + el));
    let m1 = full_box_bytes(cc_mfhd(), 0, 0, be32(((sequence as u32) + 1) as u32));
    let rest: Seq<u8> = if na > 0 { box_bytes(cc_traf(), audio_traf(audio, audio_offset)) } else { seq![] };
    let moof = m1 + traf + rest;
    assert(moof.subrange(80, 80 + el) =~= traf.subrange(64, 64 + el));
    let mdat = if na > 0 { vmdat + audio_mdat(audio, audio.len() as int) } else { vmdat };
    let bytes = box_bytes(cc_moof(), moof) + box_bytes(cc_mdat(), mdat);
    assert(bytes == media_segment_bytes(sequence, samples, audio, with_audio, start_time, next_start));
    assert(bytes.subrange(88, 88 + el) =~= moof.subrange(80, 80 + el));
}

/// Keyframes are sync samples in the segment bytes: the trun sample_flags
/// of sample `i` (bytes `96 + 12 i` to `100 + 12 i` of a media segment)
/// are `02 00 00 00` (sample_depends_on = 2, is_non_sync = 0) when the
/// sample is a keyframe and `01 01 00 00` (depends on others, non-sync)
/// otherwise.
pub proof fn lemma_keyframes_are_sync_samples(
    sequence: u64,
    samples: Seq<SampleView>,
    audio: Seq<(Seq<u8>, u64)>,
    with_audio: bool,
    start_time: u64,
    next_start: u64,
    i: int,
)
    requires
        0 <= i < samples.len(),
    ensures
        ({
            let bytes = media_segment_bytes(sequence, samples, audio, with_audio, start_time, next_start);
            &&& bytes.len() >= 100 + 12 * i
            &&& samples[i].is_keyframe ==> bytes.subrange(96 + 12 * i, 100 + 12 * i) == seq![0x02u8, 0x00u8, 0x00u8, 0x00u8]
            &&& !samples[i].is_keyframe ==> bytes.subrange(96 + 12 * i, 100 + 12 * i) == seq![0x01u8, 0x01u8, 0x00u8, 0x00u8]
        }),
{
    let n = samples.len() as int;
    lemma_trun_entries_in_segment(sequence, samples, audio, with_audio, start_time, next_start);
    lemma_trun_entries_len(samples, next_start, n);
    lemma_trun_entry_flags(samples, next_start, n, i);
    lemma_flag_bytes();
    let bytes = media_segment_bytes(sequence, samples, audio, with_audio, start_time, next_start);
    let e = trun_entries(samples, next_start, n);
    lemma_window(bytes, e, 88, 12 * i + 8, 12 * i + 12);
}

proof fn lemma_window(b: Seq<u8>, e: Seq<u8>, o: int, x: int, y: int)
    requires
        0 <= o,
        b.len() >= o + e.len(),
        b.subrange(o, o + e.len()) == e,
        0 <= x <= y <= e.len(),
    ensures
        b.subrange(o + x, o + y) == e.subrange(x, y),
{
    assert forall|j: int| 0 <= j < y - x implies b.subrange(o + x, o + y)[j] == e.subrange(x, y)[j] by {
        assert(b.subrange(o, o + e.len())[x + j] == e[x + j]);
    }
    assert(b.subrange(o + x, o + y) =~= e.subrange(x, y));
}

proof fn lemma_flag_bytes()
    ensures
        be32(sample_flags(true)) == seq![0x02u8, 0x00u8, 0x00u8, 0x00u8],
        be32(sample_flags(false)) == seq![0x01u8, 0x01u8, 0x00u8, 0x00u8],
{
    let k: u32 = sample_flags(true);
    let nk: u32 = sample_flags(false);
    assert((k >> 24u32) as u8 == 2u8 && ((k >> 16u32) & 0xffu32) as u8 == 0u8 && ((k >> 8u32) & 0xffu32) as u8 == 0u8
        && (k & 0xffu32) as u8 == 0u8) by (bit_vector)
        requires k == 0x0200_0000u32;
    assert((nk >> 24u32) as u8 == 1u8 && ((nk >> 16u32) & 0xffu32) as u8 == 1u8 && ((nk >> 8u32) & 0xffu32) as u8 == 0u8
        && (nk & 0xffu32) as u8 == 0u8) by (bit_vector)
        requires nk == 0x0101_0000u32;
    assert(be32(k) =~= seq![0x02u8, 0x00u8, 0x00u8, 0x00u8]);
    assert(be32(nk) =~= seq![0x01u8, 0x01u8, 0x00u8, 0x00u8]);
}

} // verus!
