use zm_streaming::media::VideoCodec;
use zm_streaming::segmenter::FMP4Segment;
use zm_streaming::vod::{build_playlist, package, packet_time_us, VodPacket};

fn seg(duration_ms: u64) -> FMP4Segment {
    FMP4Segment { sequence: 0, data: Vec::new(), duration_us: duration_ms * 1000, timestamp: 0, is_keyframe: true }
}

#[test]
fn build_playlist_is_well_formed_vod() {
    let segments = [seg(4000), seg(3500), seg(1200)];
    let p = build_playlist(&segments, 4_000_000);
    assert!(p.starts_with("#EXTM3U"));
    assert!(p.contains("#EXT-X-VERSION:7"));
    assert!(p.contains("#EXT-X-PLAYLIST-TYPE:VOD"));
    assert!(p.contains("#EXT-X-INDEPENDENT-SEGMENTS"));
    assert!(p.contains("#EXT-X-TARGETDURATION:4"));
    assert!(p.contains("#EXT-X-MAP:URI=\"init.mp4\""));
    assert!(p.contains("#EXTINF:4.000,\nsegment/0"));
    assert!(p.contains("#EXTINF:3.500,\nsegment/1"));
    assert!(p.contains("#EXTINF:1.200,\nsegment/2"));
    assert!(p.trim_end().ends_with("#EXT-X-ENDLIST"));
    assert_eq!(p.matches("\nsegment/").count(), 3);
}

#[test]
fn target_duration_rounds_up_the_longest_segment() {
    let p = build_playlist(&[seg(4001), seg(100)], 2_000_000);
    assert!(p.contains("#EXT-X-TARGETDURATION:5\n"));
    let p = build_playlist(&[], 0);
    assert!(p.contains("#EXT-X-TARGETDURATION:1\n"));
    let p = build_playlist(&[FMP4Segment { sequence: 0, data: vec![], duration_us: 1_234_567, timestamp: 0, is_keyframe: true }], 0);
    assert!(p.contains("#EXTINF:1.235,\nsegment/0\n"));
}

#[test]
fn packet_times_scale_by_the_time_base() {
    assert_eq!(packet_time_us(Some(90_000), None, 1, 90_000), 1_000_000);
    assert_eq!(packet_time_us(None, Some(25), 1, 25), 1_000_000);
    assert_eq!(packet_time_us(None, None, 1, 25), 0);
    assert_eq!(packet_time_us(Some(-10), None, 1, 25), 0);
    assert_eq!(packet_time_us(Some(3), None, 1, 0), 3_000_000);
    assert_eq!(packet_time_us(Some(1), None, -1, 1), u64::MAX - 999_999);
}

fn avcc_record() -> Vec<u8> {
    vec![1, 0x42, 0, 0x1e, 0xff, 0xe1, 0, 6, 0x67, 0x42, 0x00, 0x1E, 0xAB, 0x40, 1, 0, 4, 0x68, 0xCE, 0x3C, 0x80]
}

fn length_prefixed(nal: &[u8]) -> Vec<u8> {
    let mut v = (nal.len() as u32).to_be_bytes().to_vec();
    v.extend_from_slice(nal);
    v
}

#[test]
fn package_cuts_segments_and_lists_them() {
    let mut packets = Vec::new();
    for i in 0..30i64 {
        let key = i % 10 == 0;
        let nal = if key { vec![0x65, 0x88, 0x80, i as u8] } else { vec![0x41, 0x9A, i as u8] };
        packets.push(VodPacket { pts: Some(i * 3000), dts: None, is_key: key, data: Some(length_prefixed(&nal)) });
    }
    packets.push(VodPacket { pts: Some(0), dts: None, is_key: false, data: None });
    let assets = package(VideoCodec::H264, 64, 64, &avcc_record(), &packets, 1, 90_000, 200_000).expect("packaged");
    assert_eq!(&assets.init[4..8], b"ftyp");
    assert_eq!(assets.segments.len(), 3);
    assert!(assets.playlist.contains("#EXT-X-ENDLIST"));
    assert_eq!(assets.playlist.matches("\nsegment/").count(), 3);
}

#[test]
fn package_reports_missing_parameter_sets() {
    let err = package(VideoCodec::H264, 64, 64, &[1, 0x42, 0, 0x1e, 0xff, 0xe0, 0], &Vec::new(), 1, 25, 1_000_000);
    assert!(err.is_err());
    let err = package(VideoCodec::H264, 64, 64, &avcc_record(), &Vec::new(), 1, 25, 1_000_000).err();
    assert_eq!(err.as_deref(), Some("no segments produced"));
}
