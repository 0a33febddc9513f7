use zm_streaming::media::VideoCodec;
use zm_streaming::segmenter::{HlsSegmenter, AUDIO_PARAMS_WAIT_SAMPLES};

fn sps() -> Vec<u8> {
    vec![0x00, 0x00, 0x00, 0x01, 0x67, 0x42, 0x00, 0x1E, 0xAB, 0x40]
}

fn pps() -> Vec<u8> {
    vec![0x00, 0x00, 0x00, 0x01, 0x68, 0xCE, 0x3C, 0x80]
}

fn real_sps_4k() -> Vec<u8> {
    vec![
        0x67, 0x64, 0x00, 0x33, 0xAC, 0xD9, 0x40, 0x3C, 0x00, 0x43, 0xEC, 0x04, 0x40, 0x00, 0x00,
        0x03, 0x00, 0x40, 0x00, 0x00, 0x0C, 0x83, 0xC6, 0x0C, 0x65, 0x80,
    ]
}

fn be32(d: &[u8], i: usize) -> u32 {
    u32::from_be_bytes([d[i], d[i + 1], d[i + 2], d[i + 3]])
}

#[test]
fn test_segmenter_creation() {
    let segmenter = HlsSegmenter::new(1, 4_000_000);
    assert_eq!(segmenter.monitor_id(), 1);
    assert_eq!(segmenter.sequence(), 0);
}

#[test]
fn test_extract_h264_sps() {
    let mut segmenter = HlsSegmenter::new(1, 4_000_000);
    segmenter.set_codec(VideoCodec::H264);
    segmenter.extract_parameter_sets(&sps());
    assert!(segmenter.sps().is_some());
    assert_eq!(segmenter.sps().unwrap()[0], 0x67);
}

#[test]
fn test_extract_h264_pps() {
    let mut segmenter = HlsSegmenter::new(1, 4_000_000);
    segmenter.set_codec(VideoCodec::H264);
    segmenter.extract_parameter_sets(&pps());
    assert!(segmenter.pps().is_some());
}

fn segment_with_p_frames(first_idr: Vec<Vec<u8>>) -> Vec<u8> {
    let mut segmenter = HlsSegmenter::new(1, 2_000_000);
    segmenter.set_codec(VideoCodec::H264);
    segmenter.process_nal(&sps(), 0, false);
    segmenter.process_nal(&pps(), 1000, false);
    for idr in &first_idr {
        segmenter.process_nal(idr, 100_000, true);
    }
    for i in 1..=10u8 {
        let p_frame = vec![0x00, 0x00, 0x00, 0x01, 0x41, 0x9A, i];
        segmenter.process_nal(&p_frame, 100_000 + i as u64 * 300_000, false);
    }
    let idr2 = vec![0x00, 0x00, 0x00, 0x01, 0x65, 0x88, 0x80, 0x41];
    let segment = segmenter.process_nal(&idr2, 100_000 + 11 * 300_000, true);
    assert!(segment.is_some(), "Segment should be produced");
    segment.unwrap().data
}

#[test]
fn test_segment_data_offset_and_trun_flags() {
    let data = segment_with_p_frames(vec![vec![0x00, 0x00, 0x00, 0x01, 0x65, 0x88, 0x80, 0x40]]);
    let moof_size = be32(&data, 0) as usize;
    assert_eq!(&data[4..8], b"moof");
    assert_eq!(&data[moof_size + 4..moof_size + 8], b"mdat");
    let data_offset = be32(&data, 84);
    assert_eq!(data_offset as usize, moof_size + 8);
    let trun_flags = be32(&data, 76);
    assert_eq!(trun_flags & 0x00FFFFFF, 0x000701);
}

#[test]
fn test_segment_duration_spans_to_next_segment_start() {
    let mut segmenter = HlsSegmenter::new(1, 2_000_000);
    segmenter.set_codec(VideoCodec::H264);
    segmenter.process_nal(&sps(), 0, false);
    segmenter.process_nal(&pps(), 1000, false);
    let idr = vec![0x00, 0x00, 0x00, 0x01, 0x65, 0x88, 0x80, 0x40];
    segmenter.process_nal(&idr, 100_000, true);
    for i in 1..=10u8 {
        let p_frame = vec![0x00, 0x00, 0x00, 0x01, 0x41, 0x9A, i];
        segmenter.process_nal(&p_frame, 100_000 + i as u64 * 300_000, false);
    }
    let idr2 = vec![0x00, 0x00, 0x00, 0x01, 0x65, 0x88, 0x80, 0x41];
    let seg = segmenter
        .process_nal(&idr2, 100_000 + 11 * 300_000, true)
        .expect("segment should finalize on the second keyframe");
    assert_eq!(seg.duration_us, 3_300_000);
    assert_ne!(seg.duration_us, 3_000_000);
}

#[test]
fn test_flush_emits_trailing_segment_for_short_clip() {
    let mut segmenter = HlsSegmenter::new(1, 4_000_000);
    segmenter.set_codec(VideoCodec::H264);
    segmenter.process_nal(&sps(), 0, false);
    segmenter.process_nal(&pps(), 1000, false);
    let idr = vec![0x00, 0x00, 0x00, 0x01, 0x65, 0x88, 0x80, 0x40];
    assert!(segmenter.process_nal(&idr, 100_000, true).is_none());
    for i in 1..=5u8 {
        let p_frame = vec![0x00, 0x00, 0x00, 0x01, 0x41, 0x9A, i];
        assert!(segmenter
            .process_nal(&p_frame, 100_000 + i as u64 * 200_000, false)
            .is_none());
    }
    let tail = segmenter.flush().expect("flush must emit the trailing segment");
    assert!(tail.is_keyframe);
    assert!(tail.duration_us > 0);
    assert!(segmenter.flush().is_none());
}

#[test]
fn test_non_vcl_nals_excluded_from_media_segments() {
    let mut segmenter = HlsSegmenter::new(1, 2_000_000);
    segmenter.set_codec(VideoCodec::H264);
    assert!(segmenter.process_nal(&sps(), 0, false).is_none());
    assert!(segmenter.process_nal(&pps(), 1000, false).is_none());
    assert!(segmenter.sps().is_some());
    assert!(segmenter.pps().is_some());
    assert_eq!(segmenter.total_pending_samples(), 0);
    let aud = vec![0x00, 0x00, 0x00, 0x01, 0x09, 0xF0];
    assert!(segmenter.process_nal(&aud, 90_000, false).is_none());
    assert_eq!(segmenter.total_pending_samples(), 0);
    let sei = vec![0x00, 0x00, 0x00, 0x01, 0x06, 0x05, 0x04, 0x00];
    assert!(segmenter.process_nal(&sei, 95_000, false).is_none());
    assert_eq!(segmenter.total_pending_samples(), 0);
    let idr = vec![0x00, 0x00, 0x00, 0x01, 0x65, 0x88, 0x80, 0x40];
    segmenter.process_nal(&idr, 100_000, true);
    for i in 1..=10u8 {
        let p_frame = vec![0x00, 0x00, 0x00, 0x01, 0x41, 0x9A, i];
        segmenter.process_nal(&p_frame, 100_000 + i as u64 * 300_000, false);
    }
    segmenter.process_nal(&sps(), 100_000 + 5 * 300_000, false);
    segmenter.process_nal(&pps(), 100_000 + 5 * 300_000, false);
    assert_eq!(segmenter.total_pending_samples(), 11);
}

#[test]
fn test_data_dropped_before_first_keyframe() {
    let mut segmenter = HlsSegmenter::new(1, 2_000_000);
    segmenter.set_codec(VideoCodec::H264);
    segmenter.process_nal(&sps(), 0, false);
    segmenter.process_nal(&pps(), 1000, false);
    for i in 0..5u8 {
        let p_frame = vec![0x00, 0x00, 0x00, 0x01, 0x41, 0x9A, i];
        segmenter.process_nal(&p_frame, 10_000 + i as u64 * 33_000, false);
    }
    assert_eq!(segmenter.total_pending_samples(), 0);
    assert!(!segmenter.received_keyframe());
    let idr = vec![0x00, 0x00, 0x00, 0x01, 0x65, 0x88, 0x80, 0x40];
    segmenter.process_nal(&idr, 200_000, true);
    assert_eq!(segmenter.total_pending_samples(), 1);
    assert!(segmenter.received_keyframe());
    let p_frame = vec![0x00, 0x00, 0x00, 0x01, 0x41, 0x9A, 0x01];
    segmenter.process_nal(&p_frame, 233_000, false);
    assert_eq!(segmenter.total_pending_samples(), 2);
}

#[test]
fn test_init_segment_requires_sps_pps() {
    let mut segmenter = HlsSegmenter::new(1, 4_000_000);
    segmenter.set_codec(VideoCodec::H264);
    assert!(segmenter.generate_init_segment().is_none());
    let sps = vec![0x00, 0x00, 0x00, 0x01, 0x67, 0x42, 0x00, 0x1E];
    segmenter.extract_parameter_sets(&sps);
    assert!(segmenter.generate_init_segment().is_none());
    segmenter.extract_parameter_sets(&pps());
    let init = segmenter.generate_init_segment();
    assert!(init.is_some());
    assert!(!init.unwrap().data.is_empty());
}

fn find_box_data<'a>(data: &'a [u8], box_type: &[u8; 4]) -> Option<&'a [u8]> {
    let mut offset = 0;
    while offset + 8 <= data.len() {
        let size = be32(data, offset) as usize;
        if size < 8 || offset + size > data.len() {
            break;
        }
        let btype = &data[offset + 4..offset + 8];
        if btype == box_type {
            return Some(&data[offset + 12..offset + size]);
        }
        if matches!(btype, b"moov" | b"trak" | b"mdia" | b"minf" | b"stbl") {
            if let Some(result) = find_box_data(&data[offset + 8..offset + size], box_type) {
                return Some(result);
            }
        }
        offset += size;
    }
    None
}

fn find_avc1_dimensions(data: &[u8]) -> Option<(u32, u32)> {
    for i in 4..data.len().saturating_sub(4) {
        if &data[i..i + 4] == b"avc1" {
            let base = i - 4;
            let w_offset = base + 8 + 6 + 2 + 16;
            let h_offset = w_offset + 2;
            if h_offset + 2 <= data.len() {
                let w = u16::from_be_bytes([data[w_offset], data[w_offset + 1]]) as u32;
                let h = u16::from_be_bytes([data[h_offset], data[h_offset + 1]]) as u32;
                return Some((w, h));
            }
        }
    }
    None
}

#[test]
fn test_init_segment_dimensions_from_sps() {
    let mut segmenter = HlsSegmenter::new(1, 4_000_000);
    segmenter.set_codec(VideoCodec::H264);
    let mut sps_with_sc = vec![0x00, 0x00, 0x00, 0x01];
    sps_with_sc.extend_from_slice(&real_sps_4k());
    segmenter.extract_parameter_sets(&sps_with_sc);
    assert_eq!(segmenter.width(), 3840);
    assert_eq!(segmenter.height(), 2160);
    let pps = vec![0x00, 0x00, 0x00, 0x01, 0x68, 0xEB, 0xE3, 0xCB, 0x22];
    segmenter.extract_parameter_sets(&pps);
    let init = segmenter.generate_init_segment().unwrap();
    assert_eq!(init.width, 3840);
    assert_eq!(init.height, 2160);
    let tkhd = find_box_data(&init.data, b"tkhd").unwrap();
    assert_eq!((be32(tkhd, 72) >> 16, be32(tkhd, 76) >> 16), (3840, 2160));
    assert_eq!(find_avc1_dimensions(&init.data), Some((3840, 2160)));
}

#[test]
fn test_sps_dimension_change_invalidates_init() {
    let mut segmenter = HlsSegmenter::new(1, 4_000_000);
    segmenter.set_codec(VideoCodec::H264);
    let sps_1080p = vec![
        0x00, 0x00, 0x00, 0x01, 0x67, 0x64, 0x00, 0x28, 0xAC, 0xD9, 0x40, 0x78, 0x02, 0x27, 0xE5,
        0xC0, 0x44, 0x00, 0x00, 0x03, 0x00, 0x04, 0x00, 0x00, 0x03, 0x00, 0xC8, 0x3C, 0x60, 0xC6,
        0x58,
    ];
    let pps = vec![0x00, 0x00, 0x00, 0x01, 0x68, 0xEB, 0xE3, 0xCB, 0x22];
    segmenter.extract_parameter_sets(&sps_1080p);
    segmenter.extract_parameter_sets(&pps);
    assert_eq!(segmenter.width(), 1920);
    assert_eq!(segmenter.height(), 1080);
    assert!(segmenter.generate_init_segment().is_some());
    assert!(segmenter.get_init_segment().is_some());
    let mut sps_4k_with_sc = vec![0x00, 0x00, 0x00, 0x01];
    sps_4k_with_sc.extend_from_slice(&real_sps_4k());
    segmenter.extract_parameter_sets(&sps_4k_with_sc);
    assert_eq!(segmenter.width(), 3840);
    assert_eq!(segmenter.height(), 2160);
    assert!(segmenter.get_init_segment().is_none());
}

#[test]
fn test_multi_slice_frame_single_sample() {
    let mut segmenter = HlsSegmenter::new(1, 4_000_000);
    segmenter.set_codec(VideoCodec::H264);
    segmenter.process_nal(&sps(), 0, false);
    segmenter.process_nal(&pps(), 1000, false);
    let idr_slice1 = vec![0x00, 0x00, 0x00, 0x01, 0x65, 0x88, 0x80, 0x40];
    let idr_slice2 = vec![0x00, 0x00, 0x00, 0x01, 0x65, 0x08, 0x80, 0x41];
    segmenter.process_nal(&idr_slice1, 100_000, true);
    segmenter.process_nal(&idr_slice2, 100_000, true);
    assert_eq!(segmenter.total_pending_samples(), 1);
    assert_eq!(segmenter.pending_nal_count(), Some(2));
    let p_frame = vec![0x00, 0x00, 0x00, 0x01, 0x41, 0x9A, 0x01];
    segmenter.process_nal(&p_frame, 133_333, false);
    assert_eq!(segmenter.total_pending_samples(), 2);
    assert_eq!(segmenter.completed_sample(0), Some((2, true)));
}

#[test]
fn test_multi_slice_mdat_format() {
    let data = segment_with_p_frames(vec![
        vec![0x00, 0x00, 0x00, 0x01, 0x65, 0xAA, 0xBB],
        vec![0x00, 0x00, 0x00, 0x01, 0x65, 0x0C, 0xDD],
    ]);
    let moof_size = be32(&data, 0) as usize;
    let mdat_start = moof_size;
    let mdat_size = be32(&data, mdat_start) as usize;
    assert_eq!(&data[mdat_start + 4..mdat_start + 8], b"mdat");
    let d = mdat_start + 8;
    assert_eq!(be32(&data, d), 3);
    assert_eq!(data[d + 4], 0x65);
    assert_eq!(data[d + 5], 0xAA);
    assert_eq!(data[d + 6], 0xBB);
    let n2 = d + 4 + 3;
    assert_eq!(be32(&data, n2), 3);
    assert_eq!(data[n2 + 4], 0x65);
    assert_eq!(data[n2 + 5], 0x0C);
    assert_eq!(data[n2 + 6], 0xDD);
    assert_eq!(be32(&data, 80), 11);
    assert_eq!(be32(&data, 88 + 4), 14);
    assert_eq!(mdat_size, 8 + 14 + 10 * 7);
}

fn slice_nal(nal_type: u8, first_mb_in_slice: u32) -> Vec<u8> {
    let code = first_mb_in_slice as u64 + 1;
    let significant = 64 - code.leading_zeros();
    let leading_zeros = significant - 1;
    let mut bits: Vec<bool> = vec![false; leading_zeros as usize];
    for i in (0..significant).rev() {
        bits.push((code >> i) & 1 == 1);
    }
    while bits.len() % 8 != 0 {
        bits.push(false);
    }
    let mut nal = vec![0x00, 0x00, 0x00, 0x01, nal_type];
    for chunk in bits.chunks(8) {
        let mut byte = 0u8;
        for (i, &bit) in chunk.iter().enumerate() {
            if bit {
                byte |= 1 << (7 - i);
            }
        }
        nal.push(byte);
    }
    nal
}

#[test]
fn test_4k_multi_slice_grouped_regardless_of_timestamp() {
    let mut segmenter = HlsSegmenter::new(1, 2_000_000);
    segmenter.set_codec(VideoCodec::H264);
    let mut sps = vec![0x00, 0x00, 0x00, 0x01];
    sps.extend_from_slice(&real_sps_4k());
    let pps = vec![0x00, 0x00, 0x00, 0x01, 0x68, 0xEB, 0xE3, 0xCB, 0x22];
    segmenter.process_nal(&sps, 0, false);
    segmenter.process_nal(&pps, 0, false);
    const SLICES: u32 = 24;
    segmenter.process_nal(&slice_nal(0x65, 0), 100_000, true);
    for s in 1..SLICES {
        segmenter.process_nal(&slice_nal(0x65, s * 1350), 100_000 + s as u64, true);
    }
    assert_eq!(segmenter.total_pending_samples(), 1);
    assert_eq!(segmenter.pending_nal_count(), Some(SLICES as usize));
    segmenter.process_nal(&slice_nal(0x41, 0), 400_000, false);
    assert_eq!(segmenter.completed_sample(0), Some((SLICES as usize, true)));
    for p in 1..=10u64 {
        let ts = 400_000 + p * 300_000;
        segmenter.process_nal(&slice_nal(0x41, 0), ts, false);
        segmenter.process_nal(&slice_nal(0x41, 1350), ts + 1, false);
        segmenter.process_nal(&slice_nal(0x41, 2700), ts + 2, false);
    }
    let kf2_ts = 400_000 + 11 * 300_000;
    let segment = segmenter.process_nal(&slice_nal(0x65, 0), kf2_ts, true);
    segmenter.process_nal(&slice_nal(0x65, 1350), kf2_ts + 1, true);
    let seg = segment.expect("a segment must be produced for the 4K stream");
    assert!(seg.is_keyframe);
}

fn parse_segment_timing(data: &[u8]) -> (u64, u64) {
    let bdt = u64::from_be_bytes([
        data[60], data[61], data[62], data[63], data[64], data[65], data[66], data[67],
    ]);
    let sample_count = be32(data, 80) as usize;
    let mut total_dur = 0u64;
    for i in 0..sample_count {
        total_dur += be32(data, 88 + i * 12) as u64;
    }
    (bdt, total_dur)
}

#[test]
fn test_consecutive_segments_no_timestamp_overlap() {
    let mut segmenter = HlsSegmenter::new(1, 2_000_000);
    segmenter.set_codec(VideoCodec::H264);
    segmenter.process_nal(&sps(), 0, false);
    segmenter.process_nal(&pps(), 1000, false);
    let mut segments = Vec::new();
    let frame_intervals_us = [33333u64, 33334, 33333, 33400, 33200, 33333];
    let mut ts = 100_000u64;
    for seg_idx in 0..3u8 {
        let idr = vec![0x00, 0x00, 0x00, 0x01, 0x65, 0x88, 0x80, seg_idx + 1];
        if let Some(seg) = segmenter.process_nal(&idr, ts, true) {
            segments.push(seg);
        }
        ts += frame_intervals_us[0];
        for i in 0..70usize {
            let p = vec![0x00, 0x00, 0x00, 0x01, 0x41, 0x9A, (i & 0xFF) as u8];
            let interval = frame_intervals_us[(i + 1) % frame_intervals_us.len()];
            if let Some(seg) = segmenter.process_nal(&p, ts, false) {
                segments.push(seg);
            }
            ts += interval;
        }
    }
    assert!(segments.len() >= 2);
    for i in 0..segments.len() - 1 {
        let (bdt_a, dur_a) = parse_segment_timing(&segments[i].data);
        let (bdt_b, _) = parse_segment_timing(&segments[i + 1].data);
        assert!(bdt_a + dur_a <= bdt_b);
    }
}

#[test]
fn test_large_timestamps_normalized() {
    let mut segmenter = HlsSegmenter::new(1, 2_000_000);
    segmenter.set_codec(VideoCodec::H264);
    segmenter.process_nal(&sps(), 0, false);
    segmenter.process_nal(&pps(), 1000, false);
    let mut segments = Vec::new();
    let mut ts = 43_200_000_000u64;
    for seg_idx in 0..3u8 {
        let idr = vec![0x00, 0x00, 0x00, 0x01, 0x65, 0x88, 0x80, seg_idx + 1];
        if let Some(seg) = segmenter.process_nal(&idr, ts, true) {
            segments.push(seg);
        }
        ts += 33_333;
        for i in 0..70usize {
            let p = vec![0x00, 0x00, 0x00, 0x01, 0x41, 0x9A, (i & 0xFF) as u8];
            if let Some(seg) = segmenter.process_nal(&p, ts, false) {
                segments.push(seg);
            }
            ts += 33_333;
        }
    }
    assert!(segments.len() >= 2);
    let (bdt_0, _) = parse_segment_timing(&segments[0].data);
    assert!((bdt_0 as f64 / 90000.0) < 1.0);
    for i in 0..segments.len() - 1 {
        let (bdt_a, dur_a) = parse_segment_timing(&segments[i].data);
        let (bdt_b, _) = parse_segment_timing(&segments[i + 1].data);
        assert!(bdt_a + dur_a <= bdt_b);
    }
}

fn adts_frame(payload_len: usize) -> Vec<u8> {
    let frame_len = 7 + payload_len;
    let mut f = vec![0u8; frame_len];
    f[0] = 0xFF;
    f[1] = 0xF1;
    f[2] = (1 << 6) | (8 << 2);
    f[3] = (1 << 6) | ((frame_len >> 11) as u8 & 0x03);
    f[4] = (frame_len >> 3) as u8;
    f[5] = ((frame_len as u8 & 0x07) << 5) | 0x1F;
    f[6] = 0xFC;
    for (i, b) in f.iter_mut().enumerate().skip(7) {
        *b = 0xA0 | (i as u8 & 0x0F);
    }
    f
}

fn count_pattern(haystack: &[u8], needle: &[u8]) -> usize {
    haystack.windows(needle.len()).filter(|w| w == &needle).count()
}

fn feed_video_preamble(segmenter: &mut HlsSegmenter) {
    segmenter.process_nal(&sps(), 0, false);
    segmenter.process_nal(&pps(), 1000, false);
}

#[test]
fn test_init_waits_for_audio_params_then_includes_track() {
    let mut segmenter = HlsSegmenter::new(1, 2_000_000);
    segmenter.set_codec(VideoCodec::H264);
    segmenter.set_expect_audio(true);
    feed_video_preamble(&mut segmenter);
    assert!(segmenter.generate_init_segment().is_none());
    segmenter.process_audio(&adts_frame(16), 0);
    let init = segmenter.generate_init_segment().expect("init with audio");
    assert_eq!(init.audio_object_type, Some(2));
    assert_eq!(count_pattern(&init.data, b"mp4a"), 1);
    assert_eq!(count_pattern(&init.data, b"smhd"), 1);
    assert_eq!(count_pattern(&init.data, b"soun"), 1);
    assert_eq!(count_pattern(&init.data, b"esds"), 1);
    assert_eq!(count_pattern(&init.data, b"trex"), 2);
    assert_eq!(count_pattern(&init.data, b"trak"), 2);
}

#[test]
fn test_video_only_init_when_audio_never_arrives() {
    let mut segmenter = HlsSegmenter::new(1, 2_000_000);
    segmenter.set_codec(VideoCodec::H264);
    segmenter.set_expect_audio(true);
    feed_video_preamble(&mut segmenter);
    let idr = vec![0x00, 0x00, 0x00, 0x01, 0x65, 0x88, 0x80, 0x40];
    segmenter.process_nal(&idr, 100_000, true);
    for i in 1..=(AUDIO_PARAMS_WAIT_SAMPLES + 2) {
        let p = vec![0x00, 0x00, 0x00, 0x01, 0x41, 0x9A, (i & 0xFF) as u8];
        segmenter.process_nal(&p, 100_000 + i * 40_000, false);
    }
    let init = segmenter.generate_init_segment().expect("video-only init after deadline");
    assert_eq!(init.audio_object_type, None);
    assert_eq!(count_pattern(&init.data, b"mp4a"), 0);
    assert_eq!(count_pattern(&init.data, b"trex"), 1);
}

#[test]
fn test_segment_muxes_audio_traf_and_mdat() {
    let mut segmenter = HlsSegmenter::new(1, 2_000_000);
    segmenter.set_codec(VideoCodec::H264);
    segmenter.set_expect_audio(true);
    feed_video_preamble(&mut segmenter);
    segmenter.process_audio(&adts_frame(16), 0);
    segmenter.generate_init_segment().expect("init with audio");
    let idr = vec![0x00, 0x00, 0x00, 0x01, 0x65, 0x88, 0x80, 0x40];
    segmenter.process_nal(&idr, 100_000, true);
    let f1 = adts_frame(20);
    let f2 = adts_frame(24);
    segmenter.process_audio(&f1, 100_000);
    segmenter.process_audio(&f2, 164_000);
    for i in 1..=10u64 {
        let p = vec![0x00, 0x00, 0x00, 0x01, 0x41, 0x9A, i as u8];
        segmenter.process_nal(&p, 100_000 + i * 300_000, false);
    }
    let idr2 = vec![0x00, 0x00, 0x00, 0x01, 0x65, 0x88, 0x80, 0x41];
    let segment = segmenter.process_nal(&idr2, 100_000 + 11 * 300_000, true).expect("segment");
    let data = &segment.data;
    assert_eq!(count_pattern(data, b"traf"), 2);
    let mut audio_payload = f1[7..].to_vec();
    audio_payload.extend_from_slice(&f2[7..]);
    assert!(data.ends_with(&audio_payload));
    let audio_trun_idx = data
        .windows(4)
        .enumerate()
        .filter(|(_, w)| w == b"trun")
        .map(|(i, _)| i)
        .nth(1)
        .expect("second trun (audio)");
    let audio_offset = be32(data, audio_trun_idx + 12) as usize;
    assert_eq!(audio_offset, data.len() - audio_payload.len());
    assert_eq!(be32(data, audio_trun_idx + 8), 2);
    let p = vec![0x00, 0x00, 0x00, 0x01, 0x41, 0x9A, 0xFE];
    segmenter.process_nal(&p, 100_000 + 12 * 300_000, false);
}

#[test]
fn test_non_adts_audio_is_skipped() {
    let mut segmenter = HlsSegmenter::new(1, 2_000_000);
    segmenter.set_codec(VideoCodec::H264);
    segmenter.set_expect_audio(true);
    feed_video_preamble(&mut segmenter);
    segmenter.process_audio(&[0x21, 0x1B, 0x80, 0x00], 0);
    assert!(!segmenter.has_audio_params());
}

#[test]
fn test_audio_after_video_only_init_is_dropped() {
    let mut segmenter = HlsSegmenter::new(1, 2_000_000);
    segmenter.set_codec(VideoCodec::H264);
    feed_video_preamble(&mut segmenter);
    let init = segmenter.generate_init_segment().expect("video-only init");
    assert_eq!(init.audio_object_type, None);
    let idr = vec![0x00, 0x00, 0x00, 0x01, 0x65, 0x88, 0x80, 0x40];
    segmenter.process_nal(&idr, 100_000, true);
    segmenter.process_audio(&adts_frame(16), 100_000);
    assert_eq!(segmenter.pending_audio_count(), 0);
    for i in 1..=10u64 {
        let p = vec![0x00, 0x00, 0x00, 0x01, 0x41, 0x9A, i as u8];
        segmenter.process_nal(&p, 100_000 + i * 300_000, false);
    }
    let idr2 = vec![0x00, 0x00, 0x00, 0x01, 0x65, 0x88, 0x80, 0x41];
    let segment = segmenter.process_nal(&idr2, 100_000 + 11 * 300_000, true).expect("segment");
    assert_eq!(count_pattern(&segment.data, b"traf"), 1);
}

fn run_for_segments(start_us: u64) -> Vec<(u64, Vec<u8>, u64, u64)> {
    let mut segmenter = HlsSegmenter::new(1, 1_000_000);
    segmenter.set_codec(VideoCodec::H264);
    segmenter.process_nal(&sps(), start_us, false);
    segmenter.process_nal(&pps(), start_us + 1000, false);
    let mut out = Vec::new();
    let mut ts = start_us + 100_000;
    for seg_idx in 0..4u8 {
        let idr = vec![0x00, 0x00, 0x00, 0x01, 0x65, 0x88, 0x80, seg_idx + 1];
        if let Some(s) = segmenter.process_nal(&idr, ts, true) {
            out.push((s.sequence, s.data, s.duration_us, s.timestamp));
        }
        ts += 40_000;
        for i in 0..30u8 {
            let p = vec![0x00, 0x00, 0x00, 0x01, 0x41, 0x9A, i];
            if let Some(s) = segmenter.process_nal(&p, ts, false) {
                out.push((s.sequence, s.data, s.duration_us, s.timestamp));
            }
            ts += 40_000;
        }
    }
    if let Some(s) = segmenter.flush() {
        out.push((s.sequence, s.data, s.duration_us, s.timestamp));
    }
    assert_eq!(segmenter.sequence(), out.len() as u64);
    out
}

#[test]
fn sequence_numbers_count_segments() {
    let segs = run_for_segments(0);
    assert!(segs.len() >= 3);
    for (k, s) in segs.iter().enumerate() {
        assert_eq!(s.0, k as u64);
    }
}

#[test]
fn shifted_timestamps_give_identical_segments() {
    let a = run_for_segments(0);
    let b = run_for_segments(43_200_000_000);
    assert_eq!(a, b);
    assert_eq!(a[0].3, 0);
}
