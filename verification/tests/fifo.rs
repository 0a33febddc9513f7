use zm_streaming::config::ZoneMinderConfig;
use zm_streaming::fifo::{
    detect_codec, fifo_paths, is_keyframe, parse_zm_frame, resync_zm, AudioCodec, VideoCodec,
    ZmFrame, ZmFramer, MAX_NAL_BUF_SIZE,
};
use zm_streaming::fifo::{extract_profile_level_id, h264_nal_type, h265_nal_type, slice_starts_picture};
use zm_streaming::media::{extract_next_nal, find_start_code, split_annexb_nals};

#[test]
fn test_detect_h264_codec() {
    assert_eq!(detect_codec(&[0x00, 0x00, 0x00, 0x01, 0x67, 0x42, 0x00, 0x1F]), VideoCodec::H264);
    assert_eq!(detect_codec(&[0x00, 0x00, 0x00, 0x01, 0x68, 0xCE, 0x3C, 0x80]), VideoCodec::H264);
    assert_eq!(detect_codec(&[0x00, 0x00, 0x00, 0x01, 0x65, 0x88, 0x84, 0x00]), VideoCodec::H264);
}

#[test]
fn test_detect_h265_codec() {
    assert_eq!(detect_codec(&[0x00, 0x00, 0x00, 0x01, 0x40, 0x01, 0x0C, 0x01]), VideoCodec::H265);
    assert_eq!(detect_codec(&[0x00, 0x00, 0x00, 0x01, 0x42, 0x01, 0x01, 0x01]), VideoCodec::H265);
}

#[test]
fn test_is_h264_keyframe() {
    assert!(is_keyframe(&[0x00, 0x00, 0x00, 0x01, 0x65, 0x88, 0x84, 0x00], VideoCodec::H264));
    assert!(!is_keyframe(&[0x00, 0x00, 0x00, 0x01, 0x41, 0x9A, 0x21, 0x58], VideoCodec::H264));
}

#[test]
fn test_is_h265_keyframe() {
    assert!(is_keyframe(&[0x00, 0x00, 0x00, 0x01, 0x26, 0x01, 0xAF, 0x08], VideoCodec::H265));
    assert!(!is_keyframe(&[0x00, 0x00, 0x00, 0x01, 0x02, 0x01, 0xD0, 0x00], VideoCodec::H265));
}

#[test]
fn fifo_test_h265_nal_type() {
    assert_eq!(h265_nal_type(&[0x00, 0x00, 0x00, 0x01, 0x40, 0x01]), Some(32));
    assert_eq!(h265_nal_type(&[0x00, 0x00, 0x00, 0x01, 0x42, 0x01]), Some(33));
    assert_eq!(h265_nal_type(&[0x00, 0x00, 0x00, 0x01, 0x44, 0x01]), Some(34));
    assert_eq!(h265_nal_type(&[0x00, 0x00, 0x01, 0x26, 0x01]), Some(19));
    assert_eq!(h265_nal_type(&[0x40, 0x01]), None);
    assert_eq!(h265_nal_type(&[0x00, 0x00, 0x00, 0x01]), None);
}

#[test]
fn test_parse_zm_frame_complete() {
    let header = b"ZM 12345 96096000\n";
    let mut buf = header.to_vec();
    buf.extend_from_slice(&[0x00, 0x00, 0x00, 0x01, 0x67]);
    match parse_zm_frame(&buf) {
        ZmFrame::Complete { header_len, payload_size, pts } => {
            assert_eq!(header_len, header.len());
            assert_eq!(payload_size, 12345);
            assert_eq!(pts, 96_096_000);
        }
        other => panic!("expected Complete, got {other:?}"),
    }
}

#[test]
fn test_parse_zm_frame_negative_pts() {
    match parse_zm_frame(b"ZM 50 -42\npayload") {
        ZmFrame::Complete { payload_size, pts, .. } => {
            assert_eq!(payload_size, 50);
            assert_eq!(pts, -42);
        }
        other => panic!("expected Complete, got {other:?}"),
    }
}

#[test]
fn test_parse_zm_frame_incomplete() {
    assert_eq!(parse_zm_frame(b""), ZmFrame::Incomplete);
    assert_eq!(parse_zm_frame(b"Z"), ZmFrame::Incomplete);
    assert_eq!(parse_zm_frame(b"ZM "), ZmFrame::Incomplete);
    assert_eq!(parse_zm_frame(b"ZM 123"), ZmFrame::Incomplete);
    assert_eq!(parse_zm_frame(b"ZM 100 960"), ZmFrame::Incomplete);
}

#[test]
fn test_parse_zm_frame_invalid() {
    assert_eq!(parse_zm_frame(b"XY 100 200\n"), ZmFrame::Invalid);
    assert_eq!(parse_zm_frame(&[0x00, 0x00, 0x00, 0x01, 0x67]), ZmFrame::Invalid);
    assert_eq!(parse_zm_frame(b"ZM x100 200\n"), ZmFrame::Invalid);
    assert_eq!(parse_zm_frame(b"ZM 100x200\n"), ZmFrame::Invalid);
    assert_eq!(parse_zm_frame(b"ZM 0 200\n"), ZmFrame::Invalid);
    let huge = format!("ZM {} 200\n", MAX_NAL_BUF_SIZE + 1);
    assert_eq!(parse_zm_frame(huge.as_bytes()), ZmFrame::Invalid);
}

#[test]
fn test_resync_zm_finds_next_header() {
    let mut buf = b"trailing payload bytesZM 100 200\nrest".to_vec();
    assert!(resync_zm(&mut buf));
    assert!(buf.starts_with(b"ZM 100 200\n"));
}

#[test]
fn test_resync_zm_skips_header_at_index_zero() {
    let mut buf = b"ZM bogusZM 7 9\nx".to_vec();
    assert!(resync_zm(&mut buf));
    assert!(buf.starts_with(b"ZM 7 9\n"));
}

#[test]
fn test_resync_zm_no_header_trims_tail() {
    let mut buf = b"no marker present at all".to_vec();
    assert!(!resync_zm(&mut buf));
    assert!(buf.len() <= 2);
}

#[test]
fn test_split_annexb_nals_multi() {
    let body = vec![
        0x00, 0x00, 0x00, 0x01, 0x67, 0xAA, 0x00, 0x00, 0x00, 0x01, 0x68, 0xBB, 0x00, 0x00, 0x00,
        0x01, 0x65, 0xCC, 0xDD,
    ];
    let nals = split_annexb_nals(body);
    assert_eq!(nals.len(), 3);
    assert_eq!(nals[0], vec![0x00, 0x00, 0x00, 0x01, 0x67, 0xAA]);
    assert_eq!(nals[1], vec![0x00, 0x00, 0x00, 0x01, 0x68, 0xBB]);
    assert_eq!(nals[2], vec![0x00, 0x00, 0x00, 0x01, 0x65, 0xCC, 0xDD]);
}

#[test]
fn fifo_test_split_annexb_nals_single_and_empty() {
    let single = split_annexb_nals(vec![0x00, 0x00, 0x00, 0x01, 0x65, 0x11]);
    assert_eq!(single, vec![vec![0x00, 0x00, 0x00, 0x01, 0x65, 0x11]]);
    assert!(split_annexb_nals(vec![0x11, 0x22, 0x33]).is_empty());
    assert!(split_annexb_nals(Vec::new()).is_empty());
}

#[test]
fn test_zm_framing_recovers_multi_slice_picture_cleanly() {
    let body = [
        0x00, 0x00, 0x00, 0x01, 0x65, 0x88, 0x00, 0x00, 0x00, 0x01, 0x65, 0x10, 0x00, 0x00, 0x00,
        0x01, 0x65, 0x10,
    ];
    let mut buf = format!("ZM {} 500000\n", body.len()).into_bytes();
    buf.extend_from_slice(&body);
    buf.extend_from_slice(b"ZM 4 600000\n");
    let ZmFrame::Complete { header_len, payload_size, pts } = parse_zm_frame(&buf) else {
        panic!("expected Complete");
    };
    assert_eq!(pts, 500_000);
    assert_eq!(buf[header_len + payload_size], b'Z');
    let nals = split_annexb_nals(buf[header_len..header_len + payload_size].to_vec());
    assert_eq!(nals.len(), 3);
    for nal in &nals {
        assert!(!nal.windows(2).any(|w| w == b"ZM"));
    }
}

fn first_slice_header_byte(first_mb_in_slice: u32) -> u8 {
    let code = first_mb_in_slice as u64 + 1;
    let significant = 64 - code.leading_zeros();
    let leading_zeros = significant - 1;
    let mut byte = 0u8;
    let mut bit_pos = 0u32;
    for _ in 0..leading_zeros {
        bit_pos += 1;
        if bit_pos >= 8 {
            return byte;
        }
    }
    for i in (0..significant).rev() {
        if (code >> i) & 1 == 1 && bit_pos < 8 {
            byte |= 1 << (7 - bit_pos);
        }
        bit_pos += 1;
        if bit_pos >= 8 {
            break;
        }
    }
    byte
}

#[test]
fn fifo_test_slice_starts_picture_h264_first_slice() {
    let first = first_slice_header_byte(0);
    assert_eq!(first, 0x80);
    assert!(slice_starts_picture(&[0x00, 0x00, 0x00, 0x01, 0x65, first, 0x40], VideoCodec::H264));
    assert!(slice_starts_picture(&[0x00, 0x00, 0x01, 0x41, first, 0x40], VideoCodec::H264));
}

#[test]
fn fifo_test_slice_starts_picture_h264_continuation_slices() {
    for first_mb in [1u32, 5, 99, 240, 8160, 16200, 32000] {
        let byte = first_slice_header_byte(first_mb);
        assert_eq!(byte & 0x80, 0);
        let nal = vec![0x00, 0x00, 0x00, 0x01, 0x65, byte, 0xAA, 0xBB];
        assert!(!slice_starts_picture(&nal, VideoCodec::H264));
    }
}

#[test]
fn fifo_test_slice_starts_picture_h264_emulation_prevention_unaffected() {
    let nal = vec![0x00, 0x00, 0x00, 0x01, 0x65, 0x00, 0x00, 0x03, 0x12];
    assert!(!slice_starts_picture(&nal, VideoCodec::H264));
}

#[test]
fn fifo_test_slice_starts_picture_h265() {
    let starts = vec![0x00, 0x00, 0x00, 0x01, 0x26, 0x01, 0x80, 0x40];
    assert!(slice_starts_picture(&starts, VideoCodec::H265));
    let continuation = vec![0x00, 0x00, 0x00, 0x01, 0x26, 0x01, 0x40, 0x40];
    assert!(!slice_starts_picture(&continuation, VideoCodec::H265));
}

#[test]
fn fifo_test_slice_starts_picture_conservative_defaults() {
    assert!(slice_starts_picture(&[0x65, 0x80], VideoCodec::H264));
    assert!(slice_starts_picture(&[0x00, 0x00, 0x00, 0x01, 0x65], VideoCodec::H264));
}

#[test]
fn test_parse_zm_frame_accepts_4k_keyframe() {
    let payload = 5 * 1024 * 1024;
    assert!(payload <= MAX_NAL_BUF_SIZE);
    let header = format!("ZM {payload} 96096000\n");
    match parse_zm_frame(header.as_bytes()) {
        ZmFrame::Complete { payload_size, .. } => assert_eq!(payload_size, payload),
        other => panic!("expected Complete for a 4K-sized packet, got {other:?}"),
    }
}

#[test]
fn test_config_default() {
    let config = ZoneMinderConfig::default();
    assert_eq!(config.fifo_base_path, "/run/zm");
    assert_eq!(config.video_fifo_suffix, "/video_fifo_");
    assert_eq!(config.audio_fifo_suffix, "/audio_fifo_");
    assert_eq!(config.fifo_read_timeout_ms, 5000);
    assert_eq!(config.reconnect_delay_ms, 1000);
}

#[test]
fn test_fifo_reader_creation() {
    let config = ZoneMinderConfig {
        fifo_base_path: "/tmp/zm_test_nonexistent".to_string(),
        video_fifo_suffix: "/video_fifo_".to_string(),
        ..ZoneMinderConfig::default()
    };
    let paths = fifo_paths(&config, 1, &[false, false, false], &[false, false]);
    assert_eq!(paths.codec, VideoCodec::Unknown);
    assert_eq!(paths.video_path, "/tmp/zm_test_nonexistent/video_fifo_1.h264");
}

#[test]
fn test_fifo_reader_custom_paths() {
    let config = ZoneMinderConfig {
        enabled: true,
        fifo_base_path: "/tmp".to_string(),
        video_fifo_suffix: ".video".to_string(),
        audio_fifo_suffix: ".audio".to_string(),
        ..ZoneMinderConfig::default()
    };
    let paths = fifo_paths(&config, 42, &[], &[]);
    assert_eq!(paths.video_path, "/tmp/42.video");
    assert_eq!(paths.audio_path.as_deref(), Some("/tmp/42.audio"));
}

#[test]
fn fifo_paths_pick_first_existing_candidate() {
    let config = ZoneMinderConfig::default();
    let paths = fifo_paths(&config, 3, &[false, true, true], &[false, true]);
    assert_eq!(paths.video_path, "/run/zm/video_fifo_3.hevc");
    assert_eq!(paths.codec, VideoCodec::H265);
    assert_eq!(paths.audio_path.as_deref(), Some("/run/zm/audio_fifo_3.pcm_alaw"));
    let paths = fifo_paths(&config, 3, &[true, false, false], &[false, false]);
    assert_eq!(paths.codec, VideoCodec::H264);
    assert_eq!(paths.audio_path.as_deref(), Some("/run/zm/audio_fifo_3.aac"));
}

#[test]
fn fifo_test_codec_as_str() {
    assert_eq!(VideoCodec::H264.as_str(), "H264");
    assert_eq!(VideoCodec::H265.as_str(), "H265");
    assert_eq!(VideoCodec::Unknown.as_str(), "Unknown");
}

#[test]
fn fifo_test_audio_codec_as_str() {
    assert_eq!(AudioCodec::Aac.as_str(), "AAC");
    assert_eq!(AudioCodec::G711Alaw.as_str(), "G.711 A-law");
    assert_eq!(AudioCodec::G711Ulaw.as_str(), "G.711 u-law");
    assert_eq!(AudioCodec::Opus.as_str(), "Opus");
    assert_eq!(AudioCodec::Unknown.as_str(), "Unknown");
}

#[test]
fn fifo_test_find_start_code_4byte() {
    assert_eq!(find_start_code(&[0x00, 0x00, 0x00, 0x01, 0x67, 0x42], 0), Some((0, 4)));
}

#[test]
fn fifo_test_find_start_code_3byte() {
    assert_eq!(find_start_code(&[0xFF, 0x00, 0x00, 0x01, 0x67, 0x42], 0), Some((1, 3)));
}

#[test]
fn fifo_test_find_start_code_offset() {
    let buf = [0xAA, 0xBB, 0xCC, 0xDD, 0xEE, 0x00, 0x00, 0x00, 0x01, 0x67];
    assert_eq!(find_start_code(&buf, 3), Some((5, 4)));
}

#[test]
fn fifo_test_find_start_code_none() {
    assert_eq!(find_start_code(&[0xAA, 0xBB, 0xCC, 0xDD], 0), None);
}

#[test]
fn fifo_test_extract_next_nal_single() {
    let mut buf = vec![
        0x00, 0x00, 0x00, 0x01, 0x67, 0x42, 0x00, 0x1F, 0x00, 0x00, 0x00, 0x01, 0x68, 0xCE, 0x3C,
        0x80,
    ];
    let nal = extract_next_nal(&mut buf).unwrap();
    assert_eq!(nal, vec![0x00, 0x00, 0x00, 0x01, 0x67, 0x42, 0x00, 0x1F]);
    assert_eq!(buf[0..4], [0x00, 0x00, 0x00, 0x01]);
    assert_eq!(buf[4], 0x68);
}

#[test]
fn fifo_test_extract_next_nal_discards_leading_garbage() {
    let mut buf = vec![
        0xAA, 0xBB, 0xCC, 0x00, 0x00, 0x00, 0x01, 0x67, 0x42, 0x00, 0x00, 0x00, 0x01, 0x68, 0xCE,
    ];
    let nal = extract_next_nal(&mut buf).unwrap();
    assert_eq!(nal, vec![0x00, 0x00, 0x00, 0x01, 0x67, 0x42]);
}

#[test]
fn test_extract_next_nal_incomplete() {
    let mut buf = vec![0x00, 0x00, 0x00, 0x01, 0x67, 0x42, 0x00, 0x1F];
    assert!(extract_next_nal(&mut buf).is_none());
    assert_eq!(buf.len(), 8);
}

#[test]
fn fifo_test_extract_next_nal_3byte_start_codes() {
    let mut buf = vec![0x00, 0x00, 0x01, 0x67, 0x42, 0x00, 0x00, 0x01, 0x68, 0xCE];
    let nal = extract_next_nal(&mut buf).unwrap();
    assert_eq!(nal, vec![0x00, 0x00, 0x01, 0x67, 0x42]);
}

#[test]
fn fifo_test_h264_nal_type_4byte_start_code() {
    assert_eq!(h264_nal_type(&[0, 0, 0, 1, 0x67]), Some(7));
    assert_eq!(h264_nal_type(&[0, 0, 0, 1, 0x68]), Some(8));
    assert_eq!(h264_nal_type(&[0, 0, 0, 1, 0x65]), Some(5));
    assert_eq!(h264_nal_type(&[0, 0, 0, 1, 0x41]), Some(1));
}

#[test]
fn fifo_test_h264_nal_type_3byte_start_code() {
    assert_eq!(h264_nal_type(&[0, 0, 1, 0x67]), Some(7));
}

#[test]
fn fifo_test_h264_nal_type_no_start_code() {
    assert_eq!(h264_nal_type(&[0xFF, 0x67]), None);
    assert_eq!(h264_nal_type(&[]), None);
}

#[test]
fn fifo_test_extract_profile_level_id_valid_sps() {
    let sps = vec![0x00, 0x00, 0x00, 0x01, 0x67, 0x4D, 0x00, 0x33, 0xFF];
    assert_eq!(extract_profile_level_id(&sps), Some("4d0033".to_string()));
}

#[test]
fn fifo_test_extract_profile_level_id_not_sps() {
    let pps = vec![0x00, 0x00, 0x00, 0x01, 0x68, 0xCE, 0x3C, 0x80];
    assert_eq!(extract_profile_level_id(&pps), None);
}

#[test]
fn fifo_test_extract_profile_level_id_too_short() {
    let short = vec![0x00, 0x00, 0x00, 0x01, 0x67, 0x4D];
    assert_eq!(extract_profile_level_id(&short), None);
}

#[test]
fn framer_timestamps_start_at_zero_and_share_packet_pts() {
    let mut framer = ZmFramer::new(5, VideoCodec::Unknown);
    let body = [0x00, 0x00, 0x00, 0x01, 0x67, 0x42, 0x00, 0x00, 0x00, 0x01, 0x65, 0x88];
    let mut buf = format!("ZM {} 1000000\n", body.len()).into_bytes();
    buf.extend_from_slice(&body);
    framer.feed(&buf);
    let first = framer.next_packet().expect("first NAL");
    let second = framer.next_packet().expect("second NAL");
    assert_eq!(first.timestamp_us, 0);
    assert_eq!(second.timestamp_us, 0);
    assert_eq!(first.codec, VideoCodec::H264);
    assert!(second.is_keyframe);
    assert_eq!(first.monitor_id, 5);
    assert!(framer.next_packet().is_none());
}

#[test]
fn complete_header_unchanged_by_trailing_bytes() {
    let header = b"ZM 5 -7\n".to_vec();
    let r = parse_zm_frame(&header);
    assert_eq!(r, ZmFrame::Complete { header_len: 8, payload_size: 5, pts: -7 });
    let mut longer = header.clone();
    longer.extend_from_slice(b"abcdeZM 3 1\n");
    assert_eq!(parse_zm_frame(&longer), r);
}
