//! HLS-VOD packaging of recorded event MP4s.
//!
//! The container is demuxed by libavformat; what comes out of it — the
//! codec's extradata and the video packets with their timestamps — is
//! repackaged here: the parameter sets from the `avcC`/`hvcC` record and
//! the length-prefixed NAL units of every packet are fed to an
//! [`HlsSegmenter`], and a VOD playlist is written for the segments.

use vstd::prelude::*;
use crate::media::{avcc_to_annexb, parse_extradata, spec_avcc_split, spec_parse_extradata, VideoCodec};
use crate::segmenter::{
    initial_segmenter, opt_segment, spec_flush, spec_generate_init_segment, spec_process_nal,
    FMP4Segment, HlsSegmenter, SegmentView, SegmenterView,
};
use crate::text::{decimal_chars, digit_char, push_decimal, push_str, push_digit};
use crate::wire::to_vec;

verus! {

/// Target duration of a VOD segment, in seconds.
pub const VOD_SEGMENT_SECONDS: u64 = 4;

/// Packaged HLS-VOD assets for one event: the fMP4 init segment, the media
/// segments, and the VOD playlist that references them.
pub struct VodAssets {
    pub init: Vec<u8>,
    pub segments: Vec<Vec<u8>>,
    pub playlist: String,
}

/// The value of [`VodAssets`].
pub struct VodAssetsView {
    pub init: Seq<u8>,
    pub segments: Seq<Seq<u8>>,
    pub playlist: Seq<char>,
}

impl View for VodAssets {
    type V = VodAssetsView;

    open spec fn view(&self) -> VodAssetsView {
        VodAssetsView {
            init: self.init@,
            segments: self.segments@.map_values(|s: Vec<u8>| s@),
            playlist: self.playlist@,
        }
    }
}

// ---------------------------------------------------------------------------
// Playlist
// ---------------------------------------------------------------------------

/// Microseconds in a second.
pub const MICROS_PER_SECOND: u64 = 1_000_000;

/// The longest of `durations` and `target`, in microseconds.
pub open spec fn longest_duration(durations: Seq<u64>, target: u64) -> nat
    decreases durations.len(),
{
    if durations.len() == 0 {
        target as nat
    } else {
        let m = longest_duration(durations.drop_last(), target);
        if durations.last() > m { durations.last() as nat } else { m }
    }
}

/// `EXT-X-TARGETDURATION`: the longest segment (or the target, if longer)
/// rounded up to whole seconds, and at least one.
pub open spec fn target_duration_secs(durations: Seq<u64>, target: u64) -> nat {
    let c = (longest_duration(durations, target) + 999_999) / 1_000_000;
    if c < 1 { 1 } else { c as nat }
}

/// Three decimal digits of `n < 1000`, with leading zeros.
pub open spec fn three_digits(n: nat) -> Seq<char> {
    seq![digit_char(n / 100), digit_char((n / 10) % 10), digit_char(n % 10)]
}

/// A duration in microseconds as seconds with three decimals, rounded to
/// the nearest millisecond (halves up).
pub open spec fn seconds_text(us: nat) -> Seq<char> {
    let ms = (us + 500) / 1000;
    decimal_chars(ms / 1000) + "."@ + three_digits(ms % 1000)
}

/// The playlist entry of segment `i`.
pub open spec fn segment_entry(i: nat, duration_us: u64) -> Seq<char> {
    "#EXTINF:"@ + seconds_text(duration_us as nat) + ",\nsegment/"@ + decimal_chars(i) + "\n"@
}

/// The entries of all segments, in order.
pub open spec fn segment_entries(durations: Seq<u64>) -> Seq<char>
    decreases durations.len(),
{
    if durations.len() == 0 {
        Seq::empty()
    } else {
        segment_entries(durations.drop_last())
            + segment_entry((durations.len() - 1) as nat, durations.last())
    }
}

/// The opening lines of a VOD playlist up to the init segment's map.
pub open spec fn playlist_head(durations: Seq<u64>, target: u64) -> Seq<char> {
    "#EXTM3U\n#EXT-X-VERSION:7\n"@ + "#EXT-X-TARGETDURATION:"@
        + decimal_chars(target_duration_secs(durations, target)) + "\n"@
        + "#EXT-X-PLAYLIST-TYPE:VOD\n"@ + "#EXT-X-INDEPENDENT-SEGMENTS\n"@
        + "#EXT-X-MAP:URI=\"init.mp4\"\n"@
}

/// A VOD media playlist for segments of the given durations (microseconds):
/// the header, the init segment's map, one `#EXTINF` entry per segment
/// naming `segment/<index>`, and `#EXT-X-ENDLIST`.
pub open spec fn spec_vod_playlist(durations: Seq<u64>, target: u64) -> Seq<char> {
    playlist_head(durations, target) + segment_entries(durations) + "#EXT-X-ENDLIST\n"@
}

/// The durations of a list of segments.
pub open spec fn segment_durations(segments: Seq<FMP4Segment>) -> Seq<u64> {
    segments.map_values(|s: FMP4Segment| s.duration_us)
}

/// Append `us` as seconds with three decimals.
fn push_seconds(out: &mut String, us: u64)
    ensures
        final(out)@ == old(out)@ + seconds_text(us as nat),
{
    let ms: u64 = us / 1000 + if us % 1000 >= 500 { 1 } else { 0 };
    assert(ms == (us as nat + 500) / 1000);
    push_decimal(out, ms / 1000);
    push_str(out, ".");
    let frac = ms % 1000;
    push_digit(out, frac / 100);
    push_digit(out, (frac / 10) % 10);
    push_digit(out, frac % 10);
    proof {
        assert(old(out)@ + seconds_text(us as nat) =~= old(out)@ + decimal_chars((ms / 1000) as nat) + "."@
            + seq![digit_char((frac / 100) as nat)] + seq![digit_char(((frac / 10) % 10) as nat)]
            + seq![digit_char((frac % 10) as nat)]);
    }
}

/// The longest segment duration, or `target` if that is longer.
fn longest(segments: &[FMP4Segment], target_us: u64) -> (r: u64)
    ensures
        r as nat == longest_duration(segment_durations(segments@), target_us),
{
    let mut m = target_us;
    let mut i: usize = 0;
    while i < segments.len()
        invariant
            i <= segments.len(),
            m as nat == longest_duration(segment_durations(segments@.take(i as int)), target_us),
        decreases segments.len() - i,
    {
        proof {
            assert(segment_durations(segments@.take(i as int + 1)).drop_last()
                =~= segment_durations(segments@.take(i as int)));
        }
        if segments[i].duration_us > m {
            m = segments[i].duration_us;
        }
        i = i + 1;
    }
    assert(segments@.take(segments.len() as int) =~= segments@);
    m
}

/// Build the VOD media playlist referencing the init segment and the media
/// segments by index (see [`spec_vod_playlist`]).
pub fn build_playlist(segments: &[FMP4Segment], target_us: u64) -> (p: String)
    ensures
        p@ == spec_vod_playlist(segment_durations(segments@), target_us),
{
    let ghost durations = segment_durations(segments@);
    let m = longest(segments, target_us);
    let c: u64 = m / 1_000_000 + if m % 1_000_000 > 0 { 1 } else { 0 };
    assert(c == (m as nat + 999_999) / 1_000_000);
    let target_secs: u64 = if c < 1 { 1 } else { c };
    let mut p = String::new();
    push_str(&mut p, "#EXTM3U\n#EXT-X-VERSION:7\n");
    push_str(&mut p, "#EXT-X-TARGETDURATION:");
    push_decimal(&mut p, target_secs);
    push_str(&mut p, "\n");
    push_str(&mut p, "#EXT-X-PLAYLIST-TYPE:VOD\n");
    push_str(&mut p, "#EXT-X-INDEPENDENT-SEGMENTS\n");
    push_str(&mut p, "#EXT-X-MAP:URI=\"init.mp4\"\n");
    proof {
        assert(p@ =~= playlist_head(durations, target_us));
    }
    let ghost head = p@;
    let mut i: usize = 0;
    while i < segments.len()
        invariant
            i <= segments.len(),
            durations == segment_durations(segments@),
            p@ == head + segment_entries(durations.take(i as int)),
        decreases segments.len() - i,
    {
        let ghost before = p@;
        push_str(&mut p, "#EXTINF:");
        push_seconds(&mut p, segments[i].duration_us);
        push_str(&mut p, ",\nsegment/");
        push_decimal(&mut p, i as u64);
        push_str(&mut p, "\n");
        proof {
            assert(durations.take(i as int + 1).drop_last() =~= durations.take(i as int));
            assert(durations.take(i as int + 1).last() == segments@[i as int].duration_us);
            assert(p@ =~= before + segment_entry(i as nat, segments@[i as int].duration_us));
        }
        i = i + 1;
    }
    push_str(&mut p, "#EXT-X-ENDLIST\n");
    proof {
        assert(durations.take(segments.len() as int) =~= durations);
    }
    p
}

// ---------------------------------------------------------------------------
// Packet timestamps
// ---------------------------------------------------------------------------

/// 2^64.
pub open spec fn two_pow_64() -> int {
    0x1_0000_0000_0000_0000
}

/// Presentation time in microseconds of a demuxed packet whose time base is
/// `num / den`: the PTS (else the DTS, else 0), clamped at 0, times
/// `num * 1_000_000 / den` (a denominator below 1 counts as 1), the quotient
/// truncated toward zero and then to 64 bits.
pub open spec fn spec_packet_time_us(pts: Option<i64>, dts: Option<i64>, num: i32, den: i32) -> int {
    let t = match pts {
        Some(p) => p as int,
        None => match dts {
            Some(d) => d as int,
            None => 0,
        },
    };
    let t = if t < 0 { 0 } else { t };
    let d = if den < 1 { 1 } else { den as int };
    let a = if num < 0 { -(num as int) } else { num as int };
    let q = t * a * 1_000_000 / d;
    let m = q % two_pow_64();
    if num >= 0 || m == 0 { m } else { two_pow_64() - m }
}

/// Packet time in microseconds (see [`spec_packet_time_us`]).
pub fn packet_time_us(pts: Option<i64>, dts: Option<i64>, num: i32, den: i32) -> (r: u64)
    ensures
        r as int == spec_packet_time_us(pts, dts, num, den),
{
    let t: i64 = match pts {
        Some(p) => p,
        None => match dts {
            Some(d) => d,
            None => 0,
        },
    };
    let t: u64 = if t < 0 { 0 } else { t as u64 };
    let d: u128 = if den < 1 { 1 } else { den as u128 };
    let a: u64 = if num < 0 { (-(num as i64)) as u64 } else { num as u64 };
    assert((t as int) * (a as int) * 1_000_000 <= 0x8000_0000_0000_0000int * 0x8000_0000int * 1_000_000) by (nonlinear_arith)
        requires
            t <= 0x8000_0000_0000_0000int,
            a <= 0x8000_0000int,
    ;
    let prod: u128 = (t as u128) * (a as u128) * 1_000_000;
    let q: u128 = prod / d;
    let m: u64 = (q % 0x1_0000_0000_0000_0000u128) as u64;
    if num >= 0 {
        m
    } else {
        0u64.wrapping_sub(m)
    }
}

// ---------------------------------------------------------------------------
// Packaging
// ---------------------------------------------------------------------------

/// A video packet read from the container.
pub struct VodPacket {
    pub pts: Option<i64>,
    pub dts: Option<i64>,
    pub is_key: bool,
    /// The packet payload (length-prefixed NAL units), if it has one.
    pub data: Option<Vec<u8>>,
}

/// The segments completed by one call to the segmenter.
pub open spec fn seg_seq(r: Option<SegmentView>) -> Seq<SegmentView> {
    match r {
        Some(s) => seq![s],
        None => Seq::empty(),
    }
}

/// Feed NAL units one after another to a segmenter, all with the same time
/// and keyframe flag: the final state and the segments completed on the way.
pub open spec fn feed_nals(v: SegmenterView, nals: Seq<Seq<u8>>, ts: u64, key: bool) -> (SegmenterView, Seq<SegmentView>)
    decreases nals.len(),
{
    if nals.len() == 0 {
        (v, Seq::empty())
    } else {
        let (v1, done) = feed_nals(v, nals.drop_last(), ts, key);
        let (v2, r) = spec_process_nal(v1, nals.last(), ts, key);
        (v2, done + seg_seq(r))
    }
}

/// The value of a [`VodPacket`].
pub struct VodPacketView {
    pub pts: Option<i64>,
    pub dts: Option<i64>,
    pub is_key: bool,
    pub data: Option<Seq<u8>>,
}

impl View for VodPacket {
    type V = VodPacketView;

    open spec fn view(&self) -> VodPacketView {
        VodPacketView {
            pts: self.pts,
            dts: self.dts,
            is_key: self.is_key,
            data: match self.data {
                Some(d) => Some(d@),
                None => None,
            },
        }
    }
}

/// Feed the packets of a recording to a segmenter: each packet's NAL units
/// (split by their `length_size`-byte prefixes) at the packet's time.
/// Packets without payload are skipped.
pub open spec fn feed_packets(v: SegmenterView, pkts: Seq<VodPacketView>, length_size: int, num: i32, den: i32) -> (SegmenterView, Seq<SegmentView>)
    decreases pkts.len(),
{
    if pkts.len() == 0 {
        (v, Seq::empty())
    } else {
        let (v1, done) = feed_packets(v, pkts.drop_last(), length_size, num, den);
        let p = pkts.last();
        match p.data {
            Some(data) => {
                let ts = spec_packet_time_us(p.pts, p.dts, num, den) as u64;
                let (v2, more) = feed_nals(v1, spec_avcc_split(data, length_size, 0), ts, p.is_key);
                (v2, done + more)
            },
            None => (v1, done),
        }
    }
}

/// A segmenter for a recording: monitor 0, the given target, codec and
/// dimensions.
pub open spec fn vod_segmenter(codec: VideoCodec, width: u32, height: u32, target_us: u64) -> SegmenterView {
    SegmenterView { codec, width, height, ..initial_segmenter(0, target_us) }
}

/// The segments of a recording: those completed while feeding its packets,
/// then the one flushed at the end.
pub open spec fn recording_segments(v: SegmenterView, pkts: Seq<VodPacketView>, length_size: int, num: i32, den: i32) -> Seq<SegmentView> {
    let (v1, segs) = feed_packets(v, pkts, length_size, num, den);
    segs + seg_seq(spec_flush(v1).1)
}

/// Package a recording into HLS-VOD assets.
///
/// The parameter sets of the extradata are fed to the segmenter first (at
/// time 0) so that it can build the init segment; then every packet's NAL
/// units. Errors: the extradata's own error; no parameter sets in it; no
/// init segment; no segment produced.
pub open spec fn spec_package(
    codec: VideoCodec,
    width: u32,
    height: u32,
    extradata: Seq<u8>,
    pkts: Seq<VodPacketView>,
    num: i32,
    den: i32,
    target_us: u64,
) -> Result<VodAssetsView, Seq<char>> {
    match spec_parse_extradata(extradata, codec) {
        Err(e) => Err(e),
        Ok((params, length_size)) => if params.len() == 0 {
            Err("no parameter sets in extradata"@)
        } else {
            let (v1, _) = feed_nals(vod_segmenter(codec, width, height, target_us), params, 0, false);
            let (v2, init) = spec_generate_init_segment(v1);
            match init {
                None => Err("failed to build init segment"@),
                Some(i) => {
                    let segs = recording_segments(v2, pkts, length_size as int, num, den);
                    if segs.len() == 0 {
                        Err("no segments produced"@)
                    } else {
                        Ok(VodAssetsView {
                            init: i.data,
                            segments: segs.map_values(|s: SegmentView| s.data),
                            playlist: spec_vod_playlist(segs.map_values(|s: SegmentView| s.duration_us), target_us),
                        })
                    }
                },
            }
        },
    }
}

/// Feed `nals` to `seg`, collecting completed segments in `out`.
fn feed_nal_list(seg: &mut HlsSegmenter, nals: &Vec<Vec<u8>>, ts: u64, key: bool, out: &mut Vec<FMP4Segment>)
    ensures
        ({
            let (v, more) = feed_nals(old(seg)@, nals@.map_values(|n: Vec<u8>| n@), ts, key);
            &&& final(seg)@ == v
            &&& final(out)@.map_values(|s: FMP4Segment| s@) == old(out)@.map_values(|s: FMP4Segment| s@) + more
        }),
{
    let ghost start = seg@;
    let ghost out0 = out@.map_values(|s: FMP4Segment| s@);
    let ghost all = nals@.map_values(|n: Vec<u8>| n@);
    let mut i: usize = 0;
    while i < nals.len()
        invariant
            i <= nals.len(),
            all == nals@.map_values(|n: Vec<u8>| n@),
            ({
                let (v, more) = feed_nals(start, all.take(i as int), ts, key);
                &&& seg@ == v
                &&& out@.map_values(|s: FMP4Segment| s@) == out0 + more
            }),
        decreases nals.len() - i,
    {
        proof {
            assert(all.take(i as int + 1).drop_last() =~= all.take(i as int));
        }
        let r = seg.process_nal(nals[i].as_slice(), ts, key);
        let ghost before = out@.map_values(|s: FMP4Segment| s@);
        match r {
            Some(s) => {
                out.push(s);
                proof {
                    assert(out@.map_values(|s: FMP4Segment| s@) =~= before + seg_seq(opt_segment(Some(s))));
                }
            },
            None => {
                assert(before + seg_seq(None) =~= before);
            },
        }
        i = i + 1;
    }
    assert(all.take(nals.len() as int) =~= all);
}

/// Package a demuxed recording (see [`spec_package`]). `num / den` is the
/// time base of the packets' timestamps.
pub fn package(
    codec: VideoCodec,
    width: u32,
    height: u32,
    extradata: &[u8],
    packets: &Vec<VodPacket>,
    num: i32,
    den: i32,
    target_us: u64,
) -> (r: Result<VodAssets, String>)
    ensures
        match r {
            Ok(a) => spec_package(codec, width, height, extradata@, packets@.map_values(|p: VodPacket| p@), num, den, target_us) == Ok::<VodAssetsView, Seq<char>>(a@),
            Err(e) => spec_package(codec, width, height, extradata@, packets@.map_values(|p: VodPacket| p@), num, den, target_us) == Err::<VodAssetsView, Seq<char>>(e@),
        },
{
    let mut seg = HlsSegmenter::new(0, target_us);
    seg.set_codec(codec);
    seg.set_dimensions(width, height);
    let (params, length_size) = match parse_extradata(extradata, codec) {
        Ok(x) => x,
        Err(e) => return Err(e),
    };
    if params.len() == 0 {
        return Err(String::from_str("no parameter sets in extradata"));
    }
    assert(seg@ == vod_segmenter(codec, width, height, target_us));
    let mut ignored: Vec<FMP4Segment> = Vec::new();
    feed_nal_list(&mut seg, &params, 0, false, &mut ignored);
    let init = match seg.generate_init_segment() {
        Some(i) => i,
        None => return Err(String::from_str("failed to build init segment")),
    };
    let ghost v2 = seg@;
    let ghost pkts = packets@.map_values(|p: VodPacket| p@);
    let mut segments: Vec<FMP4Segment> = Vec::new();
    let mut i: usize = 0;
    while i < packets.len()
        invariant
            i <= packets.len(),
            pkts == packets@.map_values(|p: VodPacket| p@),
            ({
                let (v, done) = feed_packets(v2, pkts.take(i as int), length_size as int, num, den);
                &&& seg@ == v
                &&& segments@.map_values(|s: FMP4Segment| s@) == done
            }),
        decreases packets.len() - i,
    {
        proof {
            assert(pkts.take(i as int + 1).drop_last() =~= pkts.take(i as int));
        }
        let p = &packets[i];
        match &p.data {
            Some(data) => {
                let ts = packet_time_us(p.pts, p.dts, num, den);
                let nals = avcc_to_annexb(data.as_slice(), length_size);
                feed_nal_list(&mut seg, &nals, ts, p.is_key, &mut segments);
            },
            None => {},
        }
        i = i + 1;
    }
    proof {
        assert(pkts.take(packets.len() as int) =~= pkts);
    }
    let ghost before = segments@.map_values(|s: FMP4Segment| s@);
    match seg.flush() {
        Some(s) => {
            segments.push(s);
            proof {
                assert(segments@.map_values(|s: FMP4Segment| s@) =~= before + seg_seq(opt_segment(Some(s))));
            }
        },
        None => {
            assert(before + seg_seq(None) =~= before);
        },
    }
    if segments.len() == 0 {
        return Err(String::from_str("no segments produced"));
    }
    let playlist = build_playlist(segments.as_slice(), target_us);
    let ghost segs = segments@.map_values(|s: FMP4Segment| s@);
    proof {
        assert(segment_durations(segments@) =~= segs.map_values(|s: SegmentView| s.duration_us));
    }
    let mut datas: Vec<Vec<u8>> = Vec::new();
    let mut j: usize = 0;
    while j < segments.len()
        invariant
            j <= segments.len(),
            segs == segments@.map_values(|s: FMP4Segment| s@),
            datas@.map_values(|d: Vec<u8>| d@) == segs.take(j as int).map_values(|s: SegmentView| s.data),
        decreases segments.len() - j,
    {
        let d = to_vec(segments[j].data.as_slice());
        let ghost before = datas@.map_values(|d: Vec<u8>| d@);
        datas.push(d);
        proof {
            assert(segs[j as int] == segments@[j as int]@);
            assert(segs.take(j as int + 1).map_values(|s: SegmentView| s.data)
                =~= segs.take(j as int).map_values(|s: SegmentView| s.data).push(segs[j as int].data));
            assert(datas@.map_values(|d: Vec<u8>| d@) =~= segs.take(j as int + 1).map_values(|s: SegmentView| s.data));
        }
        j = j + 1;
    }
    proof {
        assert(segs.take(segments.len() as int) =~= segs);
    }
    Ok(VodAssets { init: init.data, segments: datas, playlist })
}

} // verus!
