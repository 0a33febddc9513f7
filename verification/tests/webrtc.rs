use zm_streaming::config::{TurnConfig, WebRtcConfig};
use zm_streaming::media::{extract_profile_level_id, h264_nal_type, VideoCodec, VideoPacket};
use zm_streaming::webrtc::{
    admit_webrtc_session, ice_servers, video_codec_capabilities, WebRtcLiveError,
    ensure_trickle_ice_option, h264_offer_profile_level_ids, AccessUnitAssembler, AudioTrackKind,
    WebRtcLiveConfig, WebRtcSessionState,
};

#[test]
fn test_webrtc_live_config_default() {
    let config = WebRtcLiveConfig::default();
    assert_eq!(config.stun_servers.len(), 2);
    assert!(config.turn_server.is_none());
    assert_eq!(config.max_sessions, 100);
}

#[test]
fn from_webrtc_config_honors_empty_stun_list() {
    let cfg = WebRtcConfig { stun_servers: vec![], max_connections: 7, turn: None };
    let live = WebRtcLiveConfig::from_webrtc_config(&cfg);
    assert!(live.stun_servers.is_empty());
    assert!(live.turn_server.is_none());
    assert_eq!(live.max_sessions, 7);
}

#[test]
fn from_webrtc_config_maps_stun_and_enabled_turn() {
    let cfg = WebRtcConfig {
        stun_servers: vec!["stun:lan.local:3478".to_string()],
        turn: Some(TurnConfig {
            enabled: true,
            server: "turn:lan.local:3478".to_string(),
            username: "u".to_string(),
            password: "p".to_string(),
        }),
        ..Default::default()
    };
    let live = WebRtcLiveConfig::from_webrtc_config(&cfg);
    assert_eq!(live.stun_servers, vec!["stun:lan.local:3478".to_string()]);
    assert_eq!(live.turn_server.as_deref(), Some("turn:lan.local:3478"));
    assert_eq!(live.turn_username.as_deref(), Some("u"));
    assert_eq!(live.turn_password.as_deref(), Some("p"));
}

#[test]
fn from_webrtc_config_ignores_disabled_turn() {
    let cfg = WebRtcConfig {
        turn: Some(TurnConfig {
            enabled: false,
            server: "turn:nope:3478".to_string(),
            username: "u".to_string(),
            password: "p".to_string(),
        }),
        ..Default::default()
    };
    let live = WebRtcLiveConfig::from_webrtc_config(&cfg);
    assert!(live.turn_server.is_none());
    assert!(live.turn_username.is_none());
    assert!(live.turn_password.is_none());
}

#[test]
fn session_state_names_are_lowercase() {
    assert_eq!(WebRtcSessionState::Connected.as_str(), "connected");
}

fn packet(data: Vec<u8>, is_keyframe: bool, codec: VideoCodec) -> VideoPacket {
    VideoPacket { monitor_id: 1, timestamp_us: 0, data, is_keyframe, codec }
}

fn make_nal(nal_type: u8, extra: &[u8]) -> VideoPacket {
    let raw = nal_type & 0x1F;
    let mut data = vec![0x00, 0x00, 0x00, 0x01, nal_type];
    if (1..=5).contains(&raw) {
        data.push(0x80);
    }
    data.extend_from_slice(extra);
    packet(data, raw == 5, VideoCodec::H264)
}

fn make_continuation_slice(nal_type: u8) -> VideoPacket {
    let raw = nal_type & 0x1F;
    packet(vec![0x00, 0x00, 0x00, 0x01, nal_type, 0x00, 0xAA], raw == 5, VideoCodec::H264)
}

fn make_slice(nal_type: u8, first_mb_in_slice: u32) -> VideoPacket {
    let code = first_mb_in_slice as u64 + 1;
    let significant = 64 - code.leading_zeros();
    let leading_zeros = significant - 1;
    let mut bits: Vec<bool> = vec![false; leading_zeros as usize];
    for i in (0..significant).rev() {
        bits.push((code >> i) & 1 == 1);
    }
    while bits.len() % 8 != 0 {
        bits.push(false);
    }
    let mut data = vec![0x00, 0x00, 0x00, 0x01, nal_type];
    for chunk in bits.chunks(8) {
        let mut byte = 0u8;
        for (i, &bit) in chunk.iter().enumerate() {
            if bit {
                byte |= 1 << (7 - i);
            }
        }
        data.push(byte);
    }
    packet(data, (nal_type & 0x1F) == 5, VideoCodec::H264)
}

fn start_codes(data: &[u8]) -> usize {
    data.windows(4).filter(|w| w == &[0, 0, 0, 1]).count()
}

#[test]
fn test_au_assembler_4k_many_slices_single_au() {
    const SLICES: u32 = 24;
    let mut assembler = AccessUnitAssembler::new();
    assembler.push(&make_nal(0x67, &[0x64, 0x00, 0x33]));
    assembler.push(&make_nal(0x68, &[0xCE, 0x3C, 0x80]));
    assert!(assembler.push(&make_slice(0x65, 0)).is_none());
    for s in 1..SLICES {
        assert!(assembler.push(&make_slice(0x65, s * 1350)).is_none());
    }
    let au = assembler.push(&make_slice(0x41, 0)).expect("multi-slice keyframe AU expected");
    assert!(au.is_keyframe);
    assert_eq!(start_codes(&au.data), 26);
}

#[test]
fn test_au_assembler_sps_pps_idr_grouped() {
    let mut assembler = AccessUnitAssembler::new();
    assert!(assembler.push(&make_nal(0x67, &[0x4d, 0x00, 0x33])).is_none());
    assert!(assembler.push(&make_nal(0x68, &[0xCE, 0x3C, 0x80])).is_none());
    assert!(assembler.push(&make_nal(0x65, &[0x88, 0x84])).is_none());
    let au = assembler.push(&make_nal(0x41, &[0x9A, 0x21]));
    assert!(au.is_some());
    let au = au.unwrap();
    assert!(au.is_keyframe);
    assert_eq!(start_codes(&au.data), 3);
}

#[test]
fn test_au_assembler_p_frames_after_keyframe() {
    let mut assembler = AccessUnitAssembler::new();
    assert!(assembler.push(&make_nal(0x65, &[0x88])).is_none());
    let au = assembler.push(&make_nal(0x41, &[0x01]));
    assert!(au.is_some());
    assert!(au.unwrap().is_keyframe);
    let au = assembler.push(&make_nal(0x41, &[0x02]));
    assert!(au.is_some());
    assert!(!au.unwrap().is_keyframe);
    let au = assembler.push(&make_nal(0x41, &[0x03]));
    assert!(au.is_some());
    assert!(!au.unwrap().is_keyframe);
}

#[test]
fn test_au_assembler_drops_until_keyframe() {
    let mut assembler = AccessUnitAssembler::new();
    assert!(assembler.push(&make_nal(0x41, &[0x01])).is_none());
    assert!(assembler.push(&make_nal(0x41, &[0x02])).is_none());
    assert!(assembler.push(&make_nal(0x41, &[0x03])).is_none());
    assert!(assembler.push(&make_nal(0x67, &[0x4d, 0x00, 0x33])).is_none());
    assert!(assembler.push(&make_nal(0x68, &[0xCE, 0x3C, 0x80])).is_none());
    assert!(assembler.push(&make_nal(0x65, &[0x88, 0x84])).is_none());
    let au = assembler.push(&make_nal(0x41, &[0x04]));
    assert!(au.is_some());
    assert!(au.unwrap().is_keyframe);
    let au = assembler.push(&make_nal(0x41, &[0x05]));
    assert!(au.is_some());
    assert!(!au.unwrap().is_keyframe);
}

#[test]
fn test_au_assembler_sps_boundary_separates_from_p_frame() {
    let mut assembler = AccessUnitAssembler::new();
    assert!(assembler.push(&make_nal(0x65, &[0x88])).is_none());
    let au = assembler.push(&make_nal(0x41, &[0x01]));
    assert!(au.unwrap().is_keyframe);
    let au = assembler.push(&make_nal(0x41, &[0x02]));
    assert!(au.is_some());
    assert!(!au.unwrap().is_keyframe);
    let au = assembler.push(&make_nal(0x67, &[0x4d, 0x00, 0x33]));
    assert!(au.is_some());
    assert!(!au.unwrap().is_keyframe);
    assert!(assembler.push(&make_nal(0x68, &[0xCE, 0x3C, 0x80])).is_none());
    assert!(assembler.push(&make_nal(0x65, &[0x88, 0x84])).is_none());
    let au = assembler.push(&make_nal(0x41, &[0x03]));
    assert!(au.is_some());
    let au = au.unwrap();
    assert!(au.is_keyframe);
    assert_eq!(start_codes(&au.data), 3);
}

#[test]
fn test_au_assembler_multi_slice_keyframe_single_au() {
    let mut assembler = AccessUnitAssembler::new();
    assembler.push(&make_nal(0x67, &[0x4d, 0x00, 0x33]));
    assembler.push(&make_nal(0x68, &[0xCE, 0x3C, 0x80]));
    assert!(assembler.push(&make_nal(0x65, &[0x88])).is_none());
    assert!(assembler.push(&make_continuation_slice(0x65)).is_none());
    assert!(assembler.push(&make_continuation_slice(0x65)).is_none());
    let au = assembler.push(&make_nal(0x41, &[0x9A])).expect("AU expected");
    assert!(au.is_keyframe);
    assert_eq!(start_codes(&au.data), 5);
}

#[test]
fn test_au_assembler_multi_slice_p_frame_single_au() {
    let mut assembler = AccessUnitAssembler::new();
    assembler.push(&make_nal(0x65, &[0x88]));
    let au = assembler.push(&make_nal(0x41, &[0x01])).expect("keyframe AU");
    assert!(au.is_keyframe);
    assert!(assembler.push(&make_continuation_slice(0x41)).is_none());
    assert!(assembler.push(&make_continuation_slice(0x41)).is_none());
    let au = assembler.push(&make_nal(0x41, &[0x02])).expect("P-frame AU");
    assert!(!au.is_keyframe);
    assert_eq!(start_codes(&au.data), 3);
}

#[test]
fn test_au_assembler_multi_slice_keyframe_flag_from_first_slice() {
    let mut assembler = AccessUnitAssembler::new();
    assembler.push(&make_nal(0x67, &[0x4d, 0x00, 0x33]));
    assembler.push(&make_nal(0x68, &[0xCE]));
    assembler.push(&make_nal(0x65, &[0x88]));
    assembler.push(&make_continuation_slice(0x65));
    let au = assembler.push(&make_nal(0x41, &[0x9A])).expect("AU");
    assert!(au.is_keyframe);
}

#[test]
fn test_au_assembler_aud_delimits_access_unit() {
    let mut assembler = AccessUnitAssembler::new();
    assembler.push(&make_nal(0x65, &[0x88]));
    let au = assembler.push(&make_nal(0x09, &[0xF0])).expect("AUD flushes keyframe AU");
    assert!(au.is_keyframe);
}

#[test]
fn test_au_assembler_empty_packet_ignored() {
    let mut assembler = AccessUnitAssembler::new();
    assert!(assembler.push(&packet(vec![], false, VideoCodec::H264)).is_none());
}

#[test]
fn test_h264_nal_type_parsing() {
    assert_eq!(h264_nal_type(&[0, 0, 0, 1, 0x67]), Some(7));
    assert_eq!(h264_nal_type(&[0, 0, 0, 1, 0x68]), Some(8));
    assert_eq!(h264_nal_type(&[0, 0, 0, 1, 0x65]), Some(5));
    assert_eq!(h264_nal_type(&[0, 0, 0, 1, 0x41]), Some(1));
    assert_eq!(h264_nal_type(&[0, 0, 1, 0x67]), Some(7));
    assert_eq!(h264_nal_type(&[0xFF, 0x67]), None);
}

#[test]
fn test_extract_profile_level_id() {
    let sps = vec![0x00, 0x00, 0x00, 0x01, 0x67, 0x4D, 0x00, 0x33, 0xFF];
    assert_eq!(extract_profile_level_id(&sps), Some("4d0033".to_string()));
    let sps = vec![0x00, 0x00, 0x00, 0x01, 0x67, 0x42, 0xE0, 0x1F];
    assert_eq!(extract_profile_level_id(&sps), Some("42e01f".to_string()));
    let sps = vec![0x00, 0x00, 0x01, 0x67, 0x64, 0x00, 0x28, 0xAA];
    assert_eq!(extract_profile_level_id(&sps), Some("640028".to_string()));
    let pps = vec![0x00, 0x00, 0x00, 0x01, 0x68, 0xCE, 0x3C, 0x80];
    assert_eq!(extract_profile_level_id(&pps), None);
    let short = vec![0x00, 0x00, 0x00, 0x01, 0x67, 0x4D];
    assert_eq!(extract_profile_level_id(&short), None);
    let no_start = vec![0x67, 0x4D, 0x00, 0x33];
    assert_eq!(extract_profile_level_id(&no_start), None);
}

#[test]
fn test_h264_offer_profile_level_ids() {
    assert_eq!(h264_offer_profile_level_ids(), vec!["42e01f".to_string(), "640c1f".to_string()]);
    assert!(h264_offer_profile_level_ids().contains(&"42e01f".to_string()));
    for plid in h264_offer_profile_level_ids() {
        assert!(plid.ends_with("1f"));
    }
}

#[test]
fn test_clear_needs_keyframe() {
    let mut assembler = AccessUnitAssembler::new();
    assert!(assembler.push(&make_nal(0x41, &[0x01])).is_none());
    assert!(assembler.push(&make_nal(0x41, &[0x02])).is_none());
    assembler.clear_needs_keyframe();
    let au = assembler.push(&make_nal(0x41, &[0x03]));
    assert!(au.is_some());
    assert!(!au.unwrap().is_keyframe);
}

fn make_h265_nal(nal_type: u8, extra: &[u8]) -> VideoPacket {
    let mut data = vec![0x00, 0x00, 0x00, 0x01, nal_type << 1, 0x01];
    if nal_type <= 31 {
        data.push(0x80);
    }
    data.extend_from_slice(extra);
    packet(data, (16..=21).contains(&nal_type), VideoCodec::H265)
}

fn make_h265_continuation_slice(nal_type: u8) -> VideoPacket {
    packet(
        vec![0x00, 0x00, 0x00, 0x01, nal_type << 1, 0x01, 0x00, 0xAA],
        (16..=21).contains(&nal_type),
        VideoCodec::H265,
    )
}

#[test]
fn test_h265_au_assembler_vps_sps_pps_idr_grouped() {
    let mut assembler = AccessUnitAssembler::new();
    assert!(assembler.push(&make_h265_nal(32, &[0x0C, 0x01])).is_none());
    assert!(assembler.push(&make_h265_nal(33, &[0x01, 0x01])).is_none());
    assert!(assembler.push(&make_h265_nal(34, &[0xC1, 0x62])).is_none());
    assert!(assembler.push(&make_h265_nal(19, &[0x88])).is_none());
    let au = assembler.push(&make_h265_nal(1, &[0x9A])).expect("keyframe AU expected");
    assert!(au.is_keyframe);
    assert_eq!(start_codes(&au.data), 4);
}

#[test]
fn test_h265_au_assembler_4k_multi_slice_single_au() {
    let mut assembler = AccessUnitAssembler::new();
    assembler.push(&make_h265_nal(32, &[0x0C]));
    assembler.push(&make_h265_nal(33, &[0x01]));
    assembler.push(&make_h265_nal(34, &[0xC1]));
    assert!(assembler.push(&make_h265_nal(19, &[0x88])).is_none());
    for _ in 1..24 {
        assert!(assembler.push(&make_h265_continuation_slice(19)).is_none());
    }
    let au = assembler.push(&make_h265_nal(1, &[0x9A])).expect("multi-slice keyframe AU expected");
    assert!(au.is_keyframe);
    assert_eq!(start_codes(&au.data), 27);
}

#[test]
fn test_h265_au_assembler_drops_until_keyframe() {
    let mut assembler = AccessUnitAssembler::new();
    assert!(assembler.push(&make_h265_nal(1, &[0x01])).is_none());
    assert!(assembler.push(&make_h265_nal(1, &[0x02])).is_none());
    assert!(assembler.push(&make_h265_nal(32, &[0x0C])).is_none());
    assert!(assembler.push(&make_h265_nal(33, &[0x01])).is_none());
    assert!(assembler.push(&make_h265_nal(34, &[0xC1])).is_none());
    assert!(assembler.push(&make_h265_nal(19, &[0x88])).is_none());
    let au = assembler.push(&make_h265_nal(1, &[0x03])).expect("keyframe AU");
    assert!(au.is_keyframe);
    let au = assembler.push(&make_h265_nal(1, &[0x04])).expect("P-frame AU");
    assert!(!au.is_keyframe);
}

#[test]
fn test_h265_au_assembler_cra_is_keyframe() {
    let mut assembler = AccessUnitAssembler::new();
    assert!(assembler.push(&make_h265_nal(21, &[0x88])).is_none());
    let au = assembler.push(&make_h265_nal(1, &[0x01])).expect("CRA AU");
    assert!(au.is_keyframe);
}

#[test]
fn test_h265_aud_delimits_access_unit() {
    let mut assembler = AccessUnitAssembler::new();
    assembler.push(&make_h265_nal(19, &[0x88]));
    let au = assembler.push(&make_h265_nal(35, &[0x50])).expect("AUD flushes keyframe AU");
    assert!(au.is_keyframe);
}

#[test]
fn audio_track_kinds_have_static_payload_types() {
    assert_eq!(AudioTrackKind::Pcma.payload_type(), 8);
    assert_eq!(AudioTrackKind::Pcmu.payload_type(), 0);
}

#[test]
fn trickle_option_added_once() {
    let sdp = b"v=0\r\no=- 1 2 IN IP4 0.0.0.0\r\ns=-\r\nt=0 0\r\nm=video 9 UDP/TLS/RTP/SAVPF 96\r\nc=IN IP4 0.0.0.0\r\n";
    let out = ensure_trickle_ice_option(sdp);
    let text = String::from_utf8(out.clone()).unwrap();
    assert_eq!(text.matches("a=ice-options:trickle").count(), 1);
    let again = ensure_trickle_ice_option(&out);
    assert_eq!(again, out);
}

#[test]
fn offered_video_codecs_per_camera_codec() {
    let h264 = video_codec_capabilities(VideoCodec::H264).unwrap();
    assert_eq!(h264.len(), 2);
    assert_eq!(h264[0].mime_type, "video/H264");
    assert_eq!(h264[0].sdp_fmtp_line, "level-asymmetry-allowed=1;packetization-mode=1;profile-level-id=42e01f");
    assert_eq!(h264[1].sdp_fmtp_line, "level-asymmetry-allowed=1;packetization-mode=1;profile-level-id=640c1f");
    assert_eq!((h264[0].payload_type, h264[1].payload_type), (96, 97));
    let h265 = video_codec_capabilities(VideoCodec::H265).unwrap();
    assert_eq!(h265.len(), 1);
    assert!(h265[0].sdp_fmtp_line.contains("profile-id=1"));
    assert_eq!(video_codec_capabilities(VideoCodec::Unknown), Err(WebRtcLiveError::UnsupportedCodec("Unknown".to_string())));
}

#[test]
fn sessions_are_capped_and_ice_servers_listed() {
    let mut config = WebRtcLiveConfig::default();
    config.max_sessions = 1;
    assert_eq!(admit_webrtc_session(0, &config), Ok(()));
    assert_eq!(admit_webrtc_session(1, &config), Err(WebRtcLiveError::WebRtcError("Maximum sessions reached".to_string())));
    config.turn_server = Some("turn:relay:3478".to_string());
    config.turn_username = Some("u".to_string());
    let servers = ice_servers(&config);
    assert_eq!(servers.len(), 3);
    assert_eq!(servers[0].url, "stun:stun.l.google.com:19302");
    assert!(servers[0].username.is_empty());
    assert_eq!(servers[2].url, "turn:relay:3478");
    assert_eq!(servers[2].username, "u");
    assert_eq!(servers[2].credential, "");
}

#[test]
fn assembler_run_keeps_bytes_after_first_keyframe() {
    let mut a = AccessUnitAssembler::new();
    let packets = vec![
        make_nal(0x41, &[0x01]),
        make_nal(0x67, &[0x42]),
        make_nal(0x68, &[0xCE]),
        make_nal(0x65, &[0x02]),
        make_nal(0x41, &[0x03]),
        make_nal(0x41, &[0x04]),
    ];
    let mut out: Vec<Vec<u8>> = Vec::new();
    let mut first_key = None;
    for p in &packets {
        if let Some(au) = a.push(p) {
            if first_key.is_none() {
                first_key = Some(au.is_keyframe);
            }
            out.push(au.data);
        }
    }
    assert_eq!(first_key, Some(true));
    // The emitted units, in order, are the pushed bytes from the SPS on,
    // minus the last (still buffered) P-frame.
    let mut expected: Vec<u8> = Vec::new();
    for p in &packets[1..5] {
        expected.extend_from_slice(&p.data);
    }
    assert_eq!(out.concat(), expected);
}
