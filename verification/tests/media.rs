use zm_streaming::media::{
    avcc_to_annexb, extract_next_nal, extract_profile_level_id, extradata_to_annexb_nals,
    find_start_code, h264_nal_type, h265_nal_type, nal_is_keyframe, parse_avcc, parse_hvcc,
    slice_starts_picture, split_annexb_nals, AdtsHeader, AdtsWrapper, AudioCodec, VideoCodec,
};

fn first_slice_header_byte(first_mb_in_slice: u32) -> u8 {
    let code = first_mb_in_slice as u64 + 1;
    let significant = 64 - code.leading_zeros();
    let leading_zeros = significant - 1;
    let mut byte = 0u8;
    let mut bit_pos = 0u32;
    for _ in 0..leading_zeros {
        bit_pos += 1;
        if bit_pos >= 8 {
            return byte;
        }
    }
    for i in (0..significant).rev() {
        if (code >> i) & 1 == 1 && bit_pos < 8 {
            byte |= 1 << (7 - bit_pos);
        }
        bit_pos += 1;
        if bit_pos >= 8 {
            break;
        }
    }
    byte
}

#[test]
fn media_test_h265_nal_type() {
    assert_eq!(h265_nal_type(&[0x00, 0x00, 0x00, 0x01, 0x40, 0x01]), Some(32));
    assert_eq!(h265_nal_type(&[0x00, 0x00, 0x00, 0x01, 0x42, 0x01]), Some(33));
    assert_eq!(h265_nal_type(&[0x00, 0x00, 0x00, 0x01, 0x44, 0x01]), Some(34));
    assert_eq!(h265_nal_type(&[0x00, 0x00, 0x01, 0x26, 0x01]), Some(19));
    assert_eq!(h265_nal_type(&[0x40, 0x01]), None);
    assert_eq!(h265_nal_type(&[0x00, 0x00, 0x00, 0x01]), None);
}

#[test]
fn media_test_split_annexb_nals_single_and_empty() {
    let single = split_annexb_nals(vec![0x00, 0x00, 0x00, 0x01, 0x65, 0x11]);
    assert_eq!(single, vec![vec![0x00, 0x00, 0x00, 0x01, 0x65, 0x11]]);
    assert!(split_annexb_nals(vec![0x11, 0x22, 0x33]).is_empty());
    assert!(split_annexb_nals(Vec::new()).is_empty());
}

#[test]
fn media_test_slice_starts_picture_h264_first_slice() {
    let first = first_slice_header_byte(0);
    assert_eq!(first, 0x80);
    assert!(slice_starts_picture(&[0x00, 0x00, 0x00, 0x01, 0x65, first, 0x40], VideoCodec::H264));
    assert!(slice_starts_picture(&[0x00, 0x00, 0x01, 0x41, first, 0x40], VideoCodec::H264));
}

#[test]
fn media_test_slice_starts_picture_h264_continuation_slices() {
    for first_mb in [1u32, 5, 99, 240, 8160, 16200, 32000] {
        let byte = first_slice_header_byte(first_mb);
        assert_eq!(byte & 0x80, 0);
        let nal = vec![0x00, 0x00, 0x00, 0x01, 0x65, byte, 0xAA, 0xBB];
        assert!(!slice_starts_picture(&nal, VideoCodec::H264));
    }
}

#[test]
fn media_test_slice_starts_picture_h264_emulation_prevention_unaffected() {
    let nal = vec![0x00, 0x00, 0x00, 0x01, 0x65, 0x00, 0x00, 0x03, 0x12];
    assert!(!slice_starts_picture(&nal, VideoCodec::H264));
}

#[test]
fn media_test_slice_starts_picture_h265() {
    let starts = vec![0x00, 0x00, 0x00, 0x01, 0x26, 0x01, 0x80, 0x40];
    assert!(slice_starts_picture(&starts, VideoCodec::H265));
    let continuation = vec![0x00, 0x00, 0x00, 0x01, 0x26, 0x01, 0x40, 0x40];
    assert!(!slice_starts_picture(&continuation, VideoCodec::H265));
}

#[test]
fn media_test_slice_starts_picture_conservative_defaults() {
    assert!(slice_starts_picture(&[0x65, 0x80], VideoCodec::H264));
    assert!(slice_starts_picture(&[0x00, 0x00, 0x00, 0x01, 0x65], VideoCodec::H264));
}

#[test]
fn media_test_codec_as_str() {
    assert_eq!(VideoCodec::H264.as_str(), "H264");
    assert_eq!(VideoCodec::H265.as_str(), "H265");
    assert_eq!(VideoCodec::Unknown.as_str(), "Unknown");
}

#[test]
fn media_test_audio_codec_as_str() {
    assert_eq!(AudioCodec::Aac.as_str(), "AAC");
    assert_eq!(AudioCodec::G711Alaw.as_str(), "G.711 A-law");
    assert_eq!(AudioCodec::G711Ulaw.as_str(), "G.711 u-law");
    assert_eq!(AudioCodec::Opus.as_str(), "Opus");
    assert_eq!(AudioCodec::Unknown.as_str(), "Unknown");
}

#[test]
fn media_test_find_start_code_4byte() {
    assert_eq!(find_start_code(&[0x00, 0x00, 0x00, 0x01, 0x67, 0x42], 0), Some((0, 4)));
}

#[test]
fn media_test_find_start_code_3byte() {
    assert_eq!(find_start_code(&[0xFF, 0x00, 0x00, 0x01, 0x67, 0x42], 0), Some((1, 3)));
}

#[test]
fn media_test_find_start_code_offset() {
    let buf = [0xAA, 0xBB, 0xCC, 0xDD, 0xEE, 0x00, 0x00, 0x00, 0x01, 0x67];
    assert_eq!(find_start_code(&buf, 3), Some((5, 4)));
}

#[test]
fn media_test_find_start_code_none() {
    assert_eq!(find_start_code(&[0xAA, 0xBB, 0xCC, 0xDD], 0), None);
}

#[test]
fn media_test_extract_next_nal_single() {
    let mut buf = vec![
        0x00, 0x00, 0x00, 0x01, 0x67, 0x42, 0x00, 0x1F, 0x00, 0x00, 0x00, 0x01, 0x68, 0xCE, 0x3C,
        0x80,
    ];
    let nal = extract_next_nal(&mut buf).unwrap();
    assert_eq!(nal, vec![0x00, 0x00, 0x00, 0x01, 0x67, 0x42, 0x00, 0x1F]);
    assert_eq!(buf[0..4], [0x00, 0x00, 0x00, 0x01]);
    assert_eq!(buf[4], 0x68);
}

#[test]
fn media_test_extract_next_nal_discards_leading_garbage() {
    let mut buf = vec![
        0xAA, 0xBB, 0xCC, 0x00, 0x00, 0x00, 0x01, 0x67, 0x42, 0x00, 0x00, 0x00, 0x01, 0x68, 0xCE,
    ];
    let nal = extract_next_nal(&mut buf).unwrap();
    assert_eq!(nal, vec![0x00, 0x00, 0x00, 0x01, 0x67, 0x42]);
}

#[test]
fn media_test_extract_next_nal_3byte_start_codes() {
    let mut buf = vec![0x00, 0x00, 0x01, 0x67, 0x42, 0x00, 0x00, 0x01, 0x68, 0xCE];
    let nal = extract_next_nal(&mut buf).unwrap();
    assert_eq!(nal, vec![0x00, 0x00, 0x01, 0x67, 0x42]);
}

#[test]
fn media_test_h264_nal_type_4byte_start_code() {
    assert_eq!(h264_nal_type(&[0, 0, 0, 1, 0x67]), Some(7));
    assert_eq!(h264_nal_type(&[0, 0, 0, 1, 0x68]), Some(8));
    assert_eq!(h264_nal_type(&[0, 0, 0, 1, 0x65]), Some(5));
    assert_eq!(h264_nal_type(&[0, 0, 0, 1, 0x41]), Some(1));
}

#[test]
fn media_test_h264_nal_type_3byte_start_code() {
    assert_eq!(h264_nal_type(&[0, 0, 1, 0x67]), Some(7));
}

#[test]
fn media_test_h264_nal_type_no_start_code() {
    assert_eq!(h264_nal_type(&[0xFF, 0x67]), None);
    assert_eq!(h264_nal_type(&[]), None);
}

#[test]
fn media_test_extract_profile_level_id_valid_sps() {
    let sps = vec![0x00, 0x00, 0x00, 0x01, 0x67, 0x4D, 0x00, 0x33, 0xFF];
    assert_eq!(extract_profile_level_id(&sps), Some("4d0033".to_string()));
}

#[test]
fn media_test_extract_profile_level_id_not_sps() {
    let pps = vec![0x00, 0x00, 0x00, 0x01, 0x68, 0xCE, 0x3C, 0x80];
    assert_eq!(extract_profile_level_id(&pps), None);
}

#[test]
fn media_test_extract_profile_level_id_too_short() {
    let short = vec![0x00, 0x00, 0x00, 0x01, 0x67, 0x4D];
    assert_eq!(extract_profile_level_id(&short), None);
}

#[test]
fn test_nal_is_keyframe_h264() {
    assert!(nal_is_keyframe(&[0x00, 0x00, 0x00, 0x01, 0x65, 0x88, 0x84, 0x00], VideoCodec::H264));
    assert!(!nal_is_keyframe(&[0x00, 0x00, 0x00, 0x01, 0x41, 0x9A, 0x21, 0x58], VideoCodec::H264));
}

#[test]
fn test_nal_is_keyframe_h265() {
    assert!(nal_is_keyframe(&[0x00, 0x00, 0x00, 0x01, 0x26, 0x01, 0xAF, 0x08], VideoCodec::H265));
    assert!(!nal_is_keyframe(&[0x00, 0x00, 0x00, 0x01, 0x02, 0x01, 0xD0, 0x00], VideoCodec::H265));
}

#[test]
fn media_test_split_annexb_nals_multi() {
    let body = vec![
        0x00, 0x00, 0x00, 0x01, 0x67, 0xAA, 0x00, 0x00, 0x00, 0x01, 0x68, 0xBB, 0x00, 0x00, 0x00,
        0x01, 0x65, 0xCC, 0xDD,
    ];
    let nals = split_annexb_nals(body);
    assert_eq!(nals.len(), 3);
    assert_eq!(nals[2], vec![0x00, 0x00, 0x00, 0x01, 0x65, 0xCC, 0xDD]);
}

#[test]
fn media_test_extract_next_nal_incomplete() {
    let mut buf = vec![0x00, 0x00, 0x00, 0x01, 0x67, 0x42, 0x00, 0x1F];
    assert!(extract_next_nal(&mut buf).is_none());
    assert_eq!(buf.len(), 8);
}

fn adts_frame(sf_index: u8, channels: u8, payload_len: usize) -> Vec<u8> {
    let frame_len = 7 + payload_len;
    let mut f = vec![0u8; frame_len];
    f[0] = 0xFF;
    f[1] = 0xF1;
    f[2] = (1 << 6) | (sf_index << 2) | (channels >> 2);
    f[3] = ((channels & 0x03) << 6) | ((frame_len >> 11) as u8 & 0x03);
    f[4] = (frame_len >> 3) as u8;
    f[5] = ((frame_len as u8 & 0x07) << 5) | 0x1F;
    f[6] = 0xFC;
    for (i, b) in f.iter_mut().enumerate().skip(7) {
        *b = i as u8;
    }
    f
}

#[test]
fn test_adts_header_parse() {
    let frame = adts_frame(8, 1, 100);
    let h = AdtsHeader::parse(&frame).expect("valid ADTS header");
    assert_eq!(h.audio_object_type, 2);
    assert_eq!(h.sampling_frequency_index, 8);
    assert_eq!(h.sample_rate, 16000);
    assert_eq!(h.channel_configuration, 1);
    assert_eq!(h.header_len, 7);
    assert_eq!(h.frame_len, 107);
    assert_eq!(h.frame_duration_us(), 64_000);
    let frame = adts_frame(4, 2, 50);
    let h = AdtsHeader::parse(&frame).expect("valid ADTS header");
    assert_eq!(h.sample_rate, 44100);
    assert_eq!(h.channel_configuration, 2);
}

#[test]
fn test_adts_header_rejects_invalid() {
    assert!(AdtsHeader::parse(&[0x00; 16]).is_none());
    assert!(AdtsHeader::parse(&[0xFF, 0xF1, 0x4C]).is_none());
    let mut bad = adts_frame(8, 1, 10);
    bad[2] = (1 << 6) | (15 << 2);
    assert!(AdtsHeader::parse(&bad).is_none());
    let mut bad = adts_frame(8, 1, 10);
    bad[3] &= 0xC0;
    bad[4] = 0;
    bad[5] = 0x1F;
    assert!(AdtsHeader::parse(&bad).is_none());
}

#[test]
fn test_audio_specific_config() {
    let h = AdtsHeader::parse(&adts_frame(4, 2, 10)).unwrap();
    assert_eq!(h.audio_specific_config(), [0x12, 0x10]);
    let h = AdtsHeader::parse(&adts_frame(8, 1, 10)).unwrap();
    assert_eq!(h.audio_specific_config(), [0x14, 0x08]);
}

#[test]
fn test_adts_wrapper_roundtrips_through_parser() {
    let wrapper = AdtsWrapper::from_asc(&[0x12, 0x10]).expect("valid ASC");
    let raw = vec![0xDE, 0xAD, 0xBE, 0xEF, 0x42];
    let framed = wrapper.wrap(&raw).expect("wrappable");
    let h = AdtsHeader::parse(&framed).expect("wrapped frame must parse");
    assert_eq!(h.audio_object_type, 2);
    assert_eq!(h.sample_rate, 44100);
    assert_eq!(h.channel_configuration, 2);
    assert_eq!(h.header_len, 7);
    assert_eq!(h.frame_len, framed.len());
    assert_eq!(&framed[7..], &raw[..]);
    assert_eq!(h.audio_specific_config(), [0x12, 0x10]);
}

#[test]
fn test_adts_wrapper_16k_mono() {
    let wrapper = AdtsWrapper::from_asc(&[0x14, 0x08]).expect("valid ASC");
    let framed = wrapper.wrap(&[0xAB; 20]).expect("wrappable");
    let h = AdtsHeader::parse(&framed).expect("parse");
    assert_eq!(h.sample_rate, 16000);
    assert_eq!(h.channel_configuration, 1);
    assert_eq!(h.audio_specific_config(), [0x14, 0x08]);
}

#[test]
fn test_adts_wrapper_rejects_inexpressible_asc() {
    assert!(AdtsWrapper::from_asc(&[0x12]).is_none());
    assert!(AdtsWrapper::from_asc(&[0x2A, 0x10]).is_none());
    assert!(AdtsWrapper::from_asc(&[0x17, 0x90]).is_none());
    assert!(AdtsWrapper::from_asc(&[0x12, 0x00]).is_none());
}

#[test]
fn test_adts_wrapper_rejects_oversized_frame() {
    let wrapper = AdtsWrapper::from_asc(&[0x12, 0x10]).unwrap();
    assert!(wrapper.wrap(&vec![0u8; 8192]).is_none());
}

#[test]
fn avcc_splits_length_prefixed_nals() {
    let data = [0, 0, 0, 3, 0xAA, 0xBB, 0xCC, 0, 0, 0, 2, 0xDD, 0xEE];
    let nals = avcc_to_annexb(&data, 4);
    assert_eq!(nals.len(), 2);
    assert_eq!(nals[0], vec![0, 0, 0, 1, 0xAA, 0xBB, 0xCC]);
    assert_eq!(nals[1], vec![0, 0, 0, 1, 0xDD, 0xEE]);
}

#[test]
fn avcc_stops_on_truncation() {
    let data = [0, 0, 0, 9, 0xAA, 0xBB, 0xCC];
    assert!(avcc_to_annexb(&data, 4).is_empty());
}

#[test]
fn parse_avcc_extracts_sps_pps() {
    let avcc = [1, 0x42, 0, 0x1f, 0xff, 0xe1, 0, 2, 0x67, 0x42, 1, 0, 2, 0x68, 0xce];
    let (nals, ls) = parse_avcc(&avcc).unwrap();
    assert_eq!(ls, 4);
    assert_eq!(nals.len(), 2);
    assert_eq!(nals[0], vec![0, 0, 0, 1, 0x67, 0x42]);
    assert_eq!(nals[1], vec![0, 0, 0, 1, 0x68, 0xce]);
}

#[test]
fn parse_hvcc_extracts_vps_sps_pps() {
    let mut hvcc = vec![0u8; 21];
    hvcc.push(0xFF);
    hvcc.push(3);
    hvcc.extend_from_slice(&[0x20, 0x00, 0x01, 0x00, 0x02, 0x40, 0x01]);
    hvcc.extend_from_slice(&[0x21, 0x00, 0x01, 0x00, 0x02, 0x42, 0x01]);
    hvcc.extend_from_slice(&[0x22, 0x00, 0x01, 0x00, 0x02, 0x44, 0x01]);
    let (nals, ls) = parse_hvcc(&hvcc).unwrap();
    assert_eq!(ls, 4);
    assert_eq!(nals.len(), 3);
    assert_eq!(nals[0], vec![0, 0, 0, 1, 0x40, 0x01]);
    assert_eq!(nals[1], vec![0, 0, 0, 1, 0x42, 0x01]);
    assert_eq!(nals[2], vec![0, 0, 0, 1, 0x44, 0x01]);
}

#[test]
fn parse_hvcc_rejects_short_record() {
    assert!(parse_hvcc(&[0u8; 10]).is_err());
}

#[test]
fn extradata_annexb_passthrough_splits_nals() {
    let extradata = vec![
        0x00, 0x00, 0x00, 0x01, 0x67, 0x4D, 0x00, 0x33, 0x00, 0x00, 0x00, 0x01, 0x68, 0xCE,
    ];
    let nals = extradata_to_annexb_nals(&extradata, VideoCodec::H264);
    assert_eq!(nals.len(), 2);
    assert_eq!(h264_nal_type(&nals[0]), Some(7));
    assert_eq!(h264_nal_type(&nals[1]), Some(8));
}

#[test]
fn extradata_avcc_is_converted() {
    let avcc = [1, 0x42, 0, 0x1f, 0xff, 0xe1, 0, 2, 0x67, 0x42, 1, 0, 2, 0x68, 0xce];
    let nals = extradata_to_annexb_nals(&avcc, VideoCodec::H264);
    assert_eq!(nals.len(), 2);
    assert_eq!(h264_nal_type(&nals[0]), Some(7));
    assert_eq!(h264_nal_type(&nals[1]), Some(8));
}

#[test]
fn extradata_garbage_yields_nothing() {
    assert!(extradata_to_annexb_nals(&[], VideoCodec::H264).is_empty());
    assert!(extradata_to_annexb_nals(&[0xAA, 0xBB], VideoCodec::H264).is_empty());
    assert!(extradata_to_annexb_nals(&[1, 2, 3, 4, 5, 6, 7], VideoCodec::Unknown).is_empty());
}
