use zm_streaming::fifo::FifoPacket;
use zm_streaming::media::{h264_nal_type, h265_nal_type, VideoCodec};
use zm_streaming::router::RouterError;
use zm_streaming::snapshot::{
    capture_error, parameter_set_kind, thumbnail_dimensions, KeyframeCollector, ParameterSet,
    SnapshotError,
};

fn nal_packet(nal_type: u8, ts: i64, is_keyframe: bool) -> FifoPacket {
    FifoPacket {
        monitor_id: 1,
        timestamp_us: ts,
        data: vec![0x00, 0x00, 0x00, 0x01, nal_type, 0xAA, 0xBB],
        is_keyframe,
        codec: VideoCodec::H264,
    }
}

fn nal_count(au: &[u8]) -> usize {
    au.windows(4).filter(|w| w == &[0, 0, 0, 1]).count()
}

fn h265_packet(nal_type: u8, ts: i64, is_keyframe: bool) -> FifoPacket {
    let header0 = (nal_type << 1) & 0x7E;
    FifoPacket {
        monitor_id: 1,
        timestamp_us: ts,
        data: vec![0x00, 0x00, 0x00, 0x01, header0, 0x01, 0xAA, 0xBB],
        is_keyframe,
        codec: VideoCodec::H265,
    }
}

#[test]
fn test_keyframe_collector_prepends_sps_pps() {
    let mut c = KeyframeCollector::new();
    assert!(c.push(&nal_packet(0x67, 100, false)).is_none());
    assert!(c.push(&nal_packet(0x68, 100, false)).is_none());
    assert!(c.push(&nal_packet(0x65, 100, true)).is_none());
    let au = c.push(&nal_packet(0x41, 200, false)).expect("keyframe access unit expected");
    assert_eq!(nal_count(&au), 3);
    assert_eq!(h264_nal_type(&au), Some(7));
}

#[test]
fn test_keyframe_collector_collects_multi_slice_idr() {
    let mut c = KeyframeCollector::new();
    c.push(&nal_packet(0x67, 100, false));
    c.push(&nal_packet(0x68, 100, false));
    c.push(&nal_packet(0x65, 100, true));
    c.push(&nal_packet(0x65, 100, true));
    c.push(&nal_packet(0x65, 100, true));
    let au = c.push(&nal_packet(0x41, 200, false)).expect("keyframe access unit expected");
    assert_eq!(nal_count(&au), 5);
}

#[test]
fn test_keyframe_collector_ignores_packets_before_keyframe() {
    let mut c = KeyframeCollector::new();
    assert!(c.push(&nal_packet(0x41, 100, false)).is_none());
    assert!(c.push(&nal_packet(0x41, 200, false)).is_none());
    c.push(&nal_packet(0x67, 300, false));
    c.push(&nal_packet(0x68, 300, false));
    c.push(&nal_packet(0x65, 300, true));
    let au = c.push(&nal_packet(0x41, 400, false)).expect("keyframe access unit expected");
    assert_eq!(nal_count(&au), 3);
}

#[test]
fn test_keyframe_collector_no_keyframe_returns_none() {
    let mut c = KeyframeCollector::new();
    for ts in 0..10 {
        assert!(c.push(&nal_packet(0x41, ts, false)).is_none());
    }
}

#[test]
fn test_keyframe_collector_h265_prepends_vps_sps_pps() {
    let mut c = KeyframeCollector::new();
    assert!(c.push(&h265_packet(32, 100, false)).is_none());
    assert!(c.push(&h265_packet(33, 100, false)).is_none());
    assert!(c.push(&h265_packet(34, 100, false)).is_none());
    assert!(c.push(&h265_packet(19, 100, true)).is_none());
    let au = c.push(&h265_packet(1, 200, false)).expect("keyframe access unit expected");
    assert_eq!(nal_count(&au), 4);
    assert_eq!(h265_nal_type(&au), Some(32));
}

#[test]
fn test_keyframe_collector_h265_multi_slice_idr() {
    let mut c = KeyframeCollector::new();
    c.push(&h265_packet(32, 100, false));
    c.push(&h265_packet(33, 100, false));
    c.push(&h265_packet(34, 100, false));
    c.push(&h265_packet(19, 100, true));
    c.push(&h265_packet(19, 100, true));
    let au = c.push(&h265_packet(1, 200, false)).expect("keyframe access unit expected");
    assert_eq!(nal_count(&au), 5);
}

#[test]
fn collector_hands_out_the_unit_once() {
    let mut c = KeyframeCollector::new();
    c.push(&nal_packet(0x65, 100, true));
    assert!(c.push(&nal_packet(0x41, 200, false)).is_some());
    assert!(c.push(&nal_packet(0x41, 300, false)).is_none());
}

#[test]
fn parameter_sets_are_classified_per_codec() {
    assert_eq!(parameter_set_kind(&nal_packet(0x67, 0, false)), Some(ParameterSet::Sps));
    assert_eq!(parameter_set_kind(&nal_packet(0x68, 0, false)), Some(ParameterSet::Pps));
    assert_eq!(parameter_set_kind(&nal_packet(0x65, 0, true)), None);
    assert_eq!(parameter_set_kind(&h265_packet(32, 0, false)), Some(ParameterSet::Vps));
    let mut unknown = nal_packet(0x67, 0, false);
    unknown.codec = VideoCodec::Unknown;
    assert_eq!(parameter_set_kind(&unknown), Some(ParameterSet::Sps));
}

#[test]
fn thumbnails_keep_aspect_and_even_sides() {
    assert_eq!(thumbnail_dimensions(320, 240, 160), (160, 120));
    assert_eq!(thumbnail_dimensions(100, 50, 320), (100, 50));
    assert_eq!(thumbnail_dimensions(1921, 1081, 161), (160, 90));
    assert_eq!(thumbnail_dimensions(4000, 10, 100), (100, 2));
}

#[test]
fn missing_socket_means_source_not_available() {
    assert!(matches!(capture_error(999, RouterError::SocketNotFound(999)), SnapshotError::SourceNotAvailable(999)));
    assert!(matches!(
        capture_error(999, RouterError::SourceNotAvailable(999)),
        SnapshotError::RouterError(RouterError::SourceNotAvailable(999))
    ));
}
