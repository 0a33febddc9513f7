use zm_streaming::media::{VideoCodec, VideoPacket};
use zm_streaming::router::{KeyframeCacheBuilder, RouterConfig, WebRtcStartupTiming};

#[test]
fn test_router_config_default() {
    let config = RouterConfig::default();
    assert!(config.auto_start);
    assert_eq!(config.channel_capacity, 100);
    assert_eq!(config.max_active_sources, 50);
}

#[test]
fn webrtc_startup_timing_records_phases() {
    let mut t = WebRtcStartupTiming::at_offer(true, 5, 120);
    assert!(t.warm_start);
    assert_eq!(t.get_source_ms, Some(5));
    assert_eq!(t.offer_ms, Some(120));
    assert_eq!(t.ice_connected_ms, None);
    assert_eq!(t.connected_ms, None);
    assert_eq!(t.first_rtp_ms, None);
    t.record_ice_connected(140);
    t.record_ice_connected(9999);
    t.record_connected(1240);
    t.record_connected(9999);
    t.record_first_rtp(1300);
    t.record_first_rtp(9999);
    assert_eq!(t.ice_connected_ms, Some(140));
    assert_eq!(t.connected_ms, Some(1240));
    assert_eq!(t.first_rtp_ms, Some(1300));
    let t = WebRtcStartupTiming::at_offer(false, 2100, 2130);
    assert!(!t.warm_start);
    assert_eq!(t.get_source_ms, Some(2100));
    assert_eq!(t.ice_connected_ms, None);
    assert_eq!(t.connected_ms, None);
    assert_eq!(t.first_rtp_ms, None);
}

fn h264_packet(nal_byte: u8, payload: &[u8]) -> VideoPacket {
    let mut data = vec![0x00, 0x00, 0x00, 0x01, nal_byte];
    data.extend_from_slice(payload);
    VideoPacket { monitor_id: 1, timestamp_us: 100, data, is_keyframe: (nal_byte & 0x1F) == 5, codec: VideoCodec::H264 }
}

fn h265_packet(nal_type: u8, payload: &[u8]) -> VideoPacket {
    let mut data = vec![0x00, 0x00, 0x00, 0x01, nal_type << 1, 0x01];
    data.extend_from_slice(payload);
    VideoPacket {
        monitor_id: 1,
        timestamp_us: 100,
        data,
        is_keyframe: (16..=21).contains(&nal_type),
        codec: VideoCodec::H265,
    }
}

fn start_codes(data: &[u8]) -> usize {
    data.windows(4).filter(|w| w == &[0, 0, 0, 1]).count()
}

#[test]
fn test_keyframe_cache_builder_h264_assembles_on_idr() {
    let mut builder = KeyframeCacheBuilder::default();
    assert!(builder.push(&h264_packet(0x67, &[0x4D, 0x00, 0x33])).is_none());
    assert!(builder.push(&h264_packet(0x68, &[0xCE, 0x3C])).is_none());
    assert!(builder.push(&h264_packet(0x41, &[0x9A])).is_none());
    let ck = builder.push(&h264_packet(0x65, &[0x88, 0x84])).expect("cache entry on IDR");
    assert_eq!(ck.codec, VideoCodec::H264);
    assert_eq!(ck.profile_level_id, "4d0033");
    assert_eq!(ck.timestamp_us, 100);
    assert_eq!(start_codes(&ck.keyframe_au), 3);
}

#[test]
fn test_keyframe_cache_builder_h264_requires_sps_and_pps() {
    let mut builder = KeyframeCacheBuilder::default();
    assert!(builder.push(&h264_packet(0x65, &[0x88])).is_none());
    assert!(builder.push(&h264_packet(0x67, &[0x4D, 0x00, 0x33])).is_none());
    assert!(builder.push(&h264_packet(0x65, &[0x88])).is_none());
}

#[test]
fn test_keyframe_cache_builder_h265_assembles_on_irap() {
    let mut builder = KeyframeCacheBuilder::default();
    assert!(builder.push(&h265_packet(32, &[0x0C, 0x01])).is_none());
    assert!(builder.push(&h265_packet(33, &[0x01, 0x01])).is_none());
    assert!(builder.push(&h265_packet(34, &[0xC1, 0x62])).is_none());
    assert!(builder.push(&h265_packet(1, &[0x9A])).is_none());
    let ck = builder.push(&h265_packet(19, &[0x88])).expect("cache entry on IRAP");
    assert_eq!(ck.codec, VideoCodec::H265);
    assert!(ck.profile_level_id.is_empty());
    assert_eq!(start_codes(&ck.keyframe_au), 4);
    assert_eq!((ck.keyframe_au[4] >> 1) & 0x3F, 32);
}

#[test]
fn test_keyframe_cache_builder_h265_requires_vps() {
    let mut builder = KeyframeCacheBuilder::default();
    assert!(builder.push(&h265_packet(33, &[0x01])).is_none());
    assert!(builder.push(&h265_packet(34, &[0xC1])).is_none());
    assert!(builder.push(&h265_packet(19, &[0x88])).is_none());
    assert!(builder.push(&h265_packet(32, &[0x0C])).is_none());
    assert!(builder.push(&h265_packet(19, &[0x88])).is_some());
}

#[test]
fn test_keyframe_cache_builder_h265_cra_assembles() {
    let mut builder = KeyframeCacheBuilder::default();
    assert!(builder.push(&h265_packet(32, &[0x0C])).is_none());
    assert!(builder.push(&h265_packet(33, &[0x01])).is_none());
    assert!(builder.push(&h265_packet(34, &[0xC1])).is_none());
    assert!(builder.push(&h265_packet(21, &[0x88])).is_some());
}

#[test]
fn keyframe_cache_builder_h264_short_sps_still_caches() {
    let mut builder = KeyframeCacheBuilder::default();
    let sps = h264_packet(0x67, &[0x4D]);
    let pps = h264_packet(0x68, &[0xCE]);
    let idr = h264_packet(0x65, &[0x88]);
    assert!(builder.push(&sps).is_none());
    assert!(builder.push(&pps).is_none());
    let ck = builder.push(&idr).expect("SPS and PPS seen: cache entry on IDR");
    let mut au = sps.data.clone();
    au.extend_from_slice(&pps.data);
    au.extend_from_slice(&idr.data);
    assert_eq!(ck.keyframe_au, au);
    assert_eq!(ck.profile_level_id, "");
}
