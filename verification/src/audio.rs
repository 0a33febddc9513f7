//! AAC to Opus transcoding for WebRTC: the sample bookkeeping.
//!
//! Decoding, resampling and encoding are done by libavcodec. Between the
//! resampler and the Opus encoder, interleaved 16-bit samples at 48 kHz are
//! buffered until a full encoder frame (20 ms by default) is available;
//! this module holds that buffer and the numbers around it.

use vstd::prelude::*;

verus! {

/// The Opus sample rate.
pub const OPUS_RATE: u32 = 48_000;

/// Samples per channel of an Opus frame when the encoder reports none
/// (20 ms at 48 kHz).
pub const DEFAULT_OPUS_FRAME_SIZE: usize = 960;

/// One encoded Opus frame ready for a WebRTC sample track.
#[derive(Debug, Clone)]
pub struct OpusFrame {
    pub data: Vec<u8>,
    /// Duration in microseconds.
    pub duration_us: u64,
}

/// Output channel count for a source with `in_channels` channels: stereo
/// stays stereo (more channels are mixed down to two), anything else is
/// mono.
pub fn output_channels(in_channels: u32) -> (r: u16)
    ensures
        r == if in_channels >= 2 { 2u16 } else { 1u16 },
{
    if in_channels >= 2 { 2 } else { 1 }
}

/// Encoder frame size: the one the encoder reports, or the default when it
/// reports none.
pub fn encoder_frame_size(reported: usize) -> (r: usize)
    ensures
        r == if reported == 0 { DEFAULT_OPUS_FRAME_SIZE } else { reported },
{
    if reported == 0 { DEFAULT_OPUS_FRAME_SIZE } else { reported }
}

/// Duration in microseconds of an Opus frame of `frame_size` samples per
/// channel.
pub fn opus_frame_duration_us(frame_size: usize) -> (r: u64)
    requires
        frame_size as int * 1_000_000 <= u64::MAX,
    ensures
        r as int == frame_size as int * 1_000_000 / 48_000,
{
    let f: u128 = frame_size as u128;
    assert(f * 1_000_000 <= 0xffff_ffff_ffff_ffffu128 * 1_000_000);
    let d: u128 = f * 1_000_000 / 48_000;
    assert(d as int <= 0xffff_ffff_ffff_ffffint) by (nonlinear_arith)
        requires
            d as int == (f as int * 1_000_000) / 48_000,
            f as int * 1_000_000 <= 0xffff_ffff_ffff_ffffint,
    ;
    d as u64
}

/// Capacity (samples per channel) of the frame a decoded frame of
/// `samples` at `in_rate` is resampled into: its converted size, what the
/// resampler still holds, and a margin of 64. A rate below 1 counts as 1.
pub open spec fn spec_resample_capacity(samples: usize, in_rate: u32, buffered: usize) -> int {
    let rate = if in_rate < 1 { 1 } else { in_rate as int };
    samples as int * 48_000 / rate + buffered + 64
}

/// The capacity of the resampled frame (see [`spec_resample_capacity`]),
/// or `None` when it would not fit in a `usize`.
pub fn resample_capacity(samples: usize, in_rate: u32, buffered: usize) -> (r: Option<usize>)
    ensures
        match r {
            Some(c) => c as int == spec_resample_capacity(samples, in_rate, buffered),
            None => spec_resample_capacity(samples, in_rate, buffered) > usize::MAX,
        },
{
    let rate: u128 = if in_rate < 1 { 1 } else { in_rate as u128 };
    let s: u128 = samples as u128;
    assert(s * 48_000 <= 0xffff_ffff_ffff_ffffu128 * 48_000);
    let converted: u128 = s * 48_000 / rate;
    assert(converted as int <= s as int * 48_000) by (nonlinear_arith)
        requires
            rate >= 1,
            converted as int == (s as int * 48_000) / (rate as int),
    ;
    let total: u128 = converted + buffered as u128 + 64;
    if total > usize::MAX as u128 {
        None
    } else {
        Some(total as usize)
    }
}

/// The little-endian 16-bit sample in bytes `2i` and `2i + 1`.
pub open spec fn le_sample(bytes: Seq<u8>, i: int) -> i16 {
    (bytes[2 * i] as int + bytes[2 * i + 1] as int * 256 - if bytes[2 * i + 1] >= 128 { 65536int } else { 0int }) as i16
}

/// Decode `count` packed little-endian 16-bit samples.
pub fn samples_from_le_bytes(bytes: &[u8], count: usize) -> (r: Vec<i16>)
    requires
        2 * count <= bytes@.len(),
    ensures
        r@.len() == count,
        forall|i: int| 0 <= i < count ==> r@[i] == le_sample(bytes@, i),
{
    let mut out: Vec<i16> = Vec::new();
    let mut i: usize = 0;
    assert(bytes@.len() == bytes.len());
    while i < count
        invariant
            i <= count,
            2 * count <= bytes@.len(),
            bytes@.len() <= usize::MAX,
            out@.len() == i,
            forall|j: int| 0 <= j < i ==> out@[j] == le_sample(bytes@, j),
        decreases count - i,
    {
        let lo = bytes[2 * i] as i32;
        let hi = bytes[2 * i + 1] as i32;
        let v: i32 = lo + hi * 256 - if hi >= 128 { 65536 } else { 0 };
        out.push(v as i16);
        i = i + 1;
    }
    out
}

/// The little-endian bytes of samples, two per sample.
pub open spec fn le_bytes_of(s: Seq<i16>) -> Seq<u8>
    decreases s.len(),
{
    if s.len() == 0 {
        Seq::empty()
    } else {
        let v = s.last() as int;
        let u = if v < 0 { v + 65536 } else { v };
        le_bytes_of(s.drop_last()) + seq![(u % 256) as u8, (u / 256) as u8]
    }
}

/// Encode samples as packed little-endian 16-bit values.
pub fn samples_to_le_bytes(samples: &[i16]) -> (r: Vec<u8>)
    ensures
        r@ == le_bytes_of(samples@),
{
    let mut out: Vec<u8> = Vec::new();
    let mut i: usize = 0;
    while i < samples.len()
        invariant
            i <= samples.len(),
            out@ == le_bytes_of(samples@.take(i as int)),
        decreases samples.len() - i,
    {
        let v: i32 = samples[i] as i32;
        let u: i32 = if v < 0 { v + 65536 } else { v };
        out.push((u % 256) as u8);
        out.push((u / 256) as u8);
        proof {
            assert(samples@.take(i as int + 1).drop_last() =~= samples@.take(i as int));
        }
        i = i + 1;
        assert(out@ =~= le_bytes_of(samples@.take(i as int)));
    }
    assert(samples@.take(samples.len() as int) =~= samples@);
    out
}

/// Interleaved samples waiting for a full encoder frame.
pub struct SampleBuffer {
    buf: Vec<i16>,
    channels: u16,
    frame_size: usize,
    next_pts: i64,
}

/// The value of a [`SampleBuffer`].
pub struct SampleBufferView {
    pub buf: Seq<i16>,
    pub channels: u16,
    pub frame_size: usize,
    /// Presentation time, in samples per channel, of the next frame.
    pub next_pts: i64,
}

impl View for SampleBuffer {
    type V = SampleBufferView;

    closed spec fn view(&self) -> SampleBufferView {
        SampleBufferView { buf: self.buf@, channels: self.channels, frame_size: self.frame_size, next_pts: self.next_pts }
    }
}

/// Samples (all channels) in one encoder frame.
pub open spec fn chunk_len(v: SampleBufferView) -> int {
    v.frame_size as int * v.channels as int
}

impl SampleBuffer {
    /// An empty buffer for frames of `frame_size` samples on `channels`
    /// channels, the first one at time 0.
    pub fn new(channels: u16, frame_size: usize) -> (r: Self)
        requires
            1 <= channels <= 2,
            frame_size >= 1,
            frame_size as int * 2 <= usize::MAX,
        ensures
            r@ == (SampleBufferView { buf: Seq::empty(), channels, frame_size, next_pts: 0 }),
    {
        SampleBuffer { buf: Vec::new(), channels, frame_size, next_pts: 0 }
    }

    /// The buffer's invariant.
    pub open spec fn wf(&self) -> bool {
        &&& 1 <= self@.channels <= 2
        &&& self@.frame_size >= 1
        &&& self@.frame_size as int * 2 <= usize::MAX
    }

    /// Append resampled samples.
    pub fn push_samples(&mut self, samples: &[i16])
        ensures
            final(self)@ == (SampleBufferView { buf: old(self)@.buf + samples@, ..old(self)@ }),
    {
        let mut i: usize = 0;
        let ghost start = self.buf@;
        while i < samples.len()
            invariant
                i <= samples.len(),
                self.buf@ == start + samples@.take(i as int),
                self@.channels == old(self)@.channels,
                self@.frame_size == old(self)@.frame_size,
                self@.next_pts == old(self)@.next_pts,
                start == old(self)@.buf,
            decreases samples.len() - i,
        {
            self.buf.push(samples[i]);
            i = i + 1;
            assert(self.buf@ =~= start + samples@.take(i as int));
        }
        assert(samples@.take(samples.len() as int) =~= samples@);
    }

    /// Take the next full encoder frame, if the buffer holds one: its
    /// samples and its presentation time. The time of the frame after it
    /// advances by one frame size (stopping at the largest `i64`).
    pub fn next_chunk(&mut self) -> (r: Option<(Vec<i16>, i64)>)
        requires
            old(self).wf(),
        ensures
            final(self).wf(),
            match r {
                Some((chunk, pts)) => {
                    &&& old(self)@.buf.len() >= chunk_len(old(self)@)
                    &&& chunk@ == old(self)@.buf.take(chunk_len(old(self)@))
                    &&& pts == old(self)@.next_pts
                    &&& final(self)@ == (SampleBufferView {
                        buf: old(self)@.buf.skip(chunk_len(old(self)@)),
                        next_pts: if old(self)@.next_pts + old(self)@.frame_size <= i64::MAX {
                            (old(self)@.next_pts + old(self)@.frame_size) as i64
                        } else {
                            i64::MAX
                        },
                        ..old(self)@
                    })
                },
                None => old(self)@.buf.len() < chunk_len(old(self)@) && final(self)@ == old(self)@,
            },
    {
        assert(self.frame_size as int * self.channels as int <= self.frame_size as int * 2) by (nonlinear_arith)
            requires
                self.channels <= 2,
                self.frame_size >= 1,
        ;
        let n = self.frame_size * (self.channels as usize);
        if self.buf.len() < n {
            return None;
        }
        let mut chunk: Vec<i16> = Vec::new();
        let mut rest: Vec<i16> = Vec::new();
        let mut i: usize = 0;
        while i < self.buf.len()
            invariant
                n <= self.buf@.len(),
                i <= self.buf@.len(),
                i <= n ==> chunk@ == self.buf@.take(i as int) && rest@.len() == 0,
                i > n ==> chunk@ == self.buf@.take(n as int) && rest@ == self.buf@.subrange(n as int, i as int),
            decreases self.buf.len() - i,
        {
            if i < n {
                chunk.push(self.buf[i]);
                assert(chunk@ =~= self.buf@.take(i as int + 1));
            } else {
                rest.push(self.buf[i]);
                assert(rest@ =~= self.buf@.subrange(n as int, i as int + 1));
            }
            i = i + 1;
        }
        if self.buf.len() == n {
            assert(rest@ =~= self.buf@.skip(n as int));
        } else {
            assert(rest@ =~= self.buf@.skip(n as int));
        }
        let pts = self.next_pts;
        let step: i64 = if (self.frame_size as u64) <= 0x7fff_ffff_ffff_ffffu64 { self.frame_size as i64 } else { i64::MAX };
        self.next_pts = if self.next_pts <= i64::MAX - step { self.next_pts + step } else { i64::MAX };
        self.buf = rest;
        Some((chunk, pts))
    }

    /// Samples waiting.
    pub fn len(&self) -> (r: usize)
        ensures
            r == self@.buf.len(),
    {
        self.buf.len()
    }
}

} // verus!
