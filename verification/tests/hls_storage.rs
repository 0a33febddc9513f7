use zm_streaming::fifo::FifoPacket;
use zm_streaming::media::VideoCodec;
use zm_streaming::session::{avc1_codec, session_base_url, storage_config_for, HlsStream};
use zm_streaming::storage::{
    is_stale_file, partial_file_name, segment_file_name, MonitorIndex, SegmentInfo, StorageConfig,
};

fn info(sequence: u64, created_at_us: u64) -> SegmentInfo {
    SegmentInfo {
        sequence,
        path: format!("/tmp/hls/1/{}", segment_file_name(sequence)),
        size: 100,
        duration_us: 2_000_000,
        created_at_us,
        is_partial: false,
    }
}

#[test]
fn storage_config_default() {
    let c = StorageConfig::default();
    assert_eq!(c.base_path, "/tmp/hls");
    assert_eq!(c.retention_ms, 30 * 60 * 1000);
    assert_eq!(c.cleanup_interval_ms, 60_000);
    assert_eq!(c.max_segments_per_stream, 100);
}

#[test]
fn file_names_are_zero_padded() {
    assert_eq!(segment_file_name(7), "segment_00007.m4s");
    assert_eq!(segment_file_name(123456), "segment_123456.m4s");
    assert_eq!(partial_file_name(12, 3), "segment_00012.3.m4s");
}

#[test]
fn only_our_files_are_stale() {
    assert!(is_stale_file("init.mp4"));
    assert!(is_stale_file("segment_00001.m4s"));
    assert!(is_stale_file("segment_00001.2.m4s"));
    assert!(!is_stale_file("segment_00001.ts"));
    assert!(!is_stale_file("playlist.m3u8"));
    assert!(!is_stale_file("seg.m4s"));
}

#[test]
fn index_keeps_segments_ordered_and_replaces_duplicates() {
    let mut idx = MonitorIndex::new(0);
    idx.insert_segment(info(3, 0));
    idx.insert_segment(info(1, 0));
    idx.insert_segment(info(2, 0));
    let mut again = info(2, 5);
    again.size = 7;
    idx.insert_segment(again);
    let seqs: Vec<u64> = idx.list().iter().map(|s| s.sequence).collect();
    assert_eq!(seqs, vec![1, 2, 3]);
    assert_eq!(idx.get(2).unwrap().size, 7);
    assert!(idx.get(9).is_none());
    let latest: Vec<u64> = idx.latest(2).iter().map(|s| s.sequence).collect();
    assert_eq!(latest, vec![2, 3]);
    let stats = idx.stats();
    assert_eq!(stats.segment_count, 3);
    assert_eq!(stats.total_size, 207);
    assert_eq!(stats.total_duration_us, 6_000_000);
    assert_eq!(stats.oldest_sequence, Some(1));
    assert_eq!(stats.newest_sequence, Some(3));
    assert!(!stats.has_init_segment);
}

#[test]
fn cleanup_removes_expired_and_excess() {
    let mut idx = MonitorIndex::new(0);
    for seq in 0..6u64 {
        idx.insert_segment(info(seq, seq * 1_000));
    }
    let removed: Vec<u64> = idx.cleanup(10_000, 8_500, 3).iter().map(|s| s.sequence).collect();
    assert_eq!(removed, vec![0, 1, 2]);
    let kept: Vec<u64> = idx.list().iter().map(|s| s.sequence).collect();
    assert_eq!(kept, vec![3, 4, 5]);
    let removed: Vec<u64> = idx.cleanup(13_000, 9_500, 10).iter().map(|s| s.sequence).collect();
    assert_eq!(removed, vec![3]);
    assert!(!idx.cleanup_due(13_500, 1_000));
    assert!(idx.cleanup_due(14_000, 1_000));
    idx.set_init_segment(vec![1, 2, 3]);
    assert!(idx.stats().has_init_segment);
    idx.clear();
    assert!(idx.list().is_empty());
    assert!(idx.init_segment().is_none());
}

#[test]
fn session_helpers() {
    assert_eq!(session_base_url("/api/v3/live", 4), "/api/v3/live/4/hls");
    assert_eq!(avc1_codec(&[0x67, 0x4D, 0x00, 0x33]).as_deref(), Some("avc1.4d0033"));
    assert_eq!(avc1_codec(&[0x67, 0x4D]), None);
    let c = storage_config_for("/var/hls".to_string(), 10, 4);
    assert_eq!(c.retention_ms, 600_000);
    assert_eq!(c.max_segments_per_stream, 150);
}

fn packet(data: Vec<u8>, ts: i64, key: bool) -> FifoPacket {
    FifoPacket { monitor_id: 2, timestamp_us: ts, data, is_keyframe: key, codec: VideoCodec::H264 }
}

#[test]
fn hls_stream_counts_segments_and_viewers() {
    let mut s = HlsStream::new(2, 500_000);
    s.process_packet(&packet(vec![0, 0, 0, 1, 0x67, 0x4D, 0x00, 0x33], 0, false));
    s.process_packet(&packet(vec![0, 0, 0, 1, 0x68, 0xCE, 0x3C, 0x80], 0, false));
    let init = s.generate_init_segment().expect("init");
    assert!(!init.data.is_empty());
    assert_eq!(s.codec().map(|c| c.as_str()), Some("avc1.4d0033"));
    s.process_packet(&packet(vec![0, 0, 0, 1, 0x65, 0x88, 0x80], 0, true));
    s.process_packet(&packet(vec![0, 0, 0, 1, 0x41, 0x9A, 0x01], 400_000, false));
    let seg = s.process_packet(&packet(vec![0, 0, 0, 1, 0x65, 0x88, 0x81], 800_000, true)).expect("segment");
    s.on_segment_complete(&seg);
    s.add_viewer();
    s.add_viewer();
    s.remove_viewer();
    s.remove_viewer();
    s.remove_viewer();
    let stats = s.stats(42);
    assert_eq!(stats.monitor_id, 2);
    assert_eq!(stats.uptime_ms, 42);
    assert_eq!(stats.segment_count, 1);
    assert_eq!(stats.bytes_written, seg.data.len() as u64);
    assert_eq!(stats.viewer_count, 0);
    assert!(stats.has_init_segment);
    assert!(s.process_packet(&packet(vec![0, 0, 0, 1, 0x41, 0x9A, 0x02], -5, false)).is_none());
}
