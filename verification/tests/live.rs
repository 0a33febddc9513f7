use zm_streaming::coordinator::{
    check_start, check_stop, CoordinatorError, LiveStreamConfig, SessionStatus, TaskAction, TaskEvent,
    TaskState,
};
use zm_streaming::fifo::FifoPacket;
use zm_streaming::media::VideoCodec;
use zm_streaming::mse::{admit_session, MseLiveConfig, MseLiveError, MseSessionState, MseStream};

#[test]
fn test_live_stream_config_default() {
    let config = LiveStreamConfig::default();
    assert!(config.enable_hls);
    assert!(!config.enable_webrtc);
    assert!(!config.enable_mse);
}

#[test]
fn test_session_status_serialize() {
    assert_eq!(SessionStatus::Active.as_str(), "active");
}

#[test]
fn test_session_not_found() {
    assert_eq!(check_stop(99999, false), Err(CoordinatorError::SessionNotFound(99999)));
    assert_eq!(check_stop(1, true), Ok(()));
}

#[test]
fn test_hls_not_configured() {
    let config = LiveStreamConfig { enable_hls: true, enable_webrtc: false, enable_mse: false };
    assert_eq!(check_start(1, false, &config, false, true), Err(CoordinatorError::HlsNotConfigured));
}

#[test]
fn start_checks_run_in_order() {
    let config = LiveStreamConfig::default();
    assert_eq!(check_start(4, true, &config, false, false), Err(CoordinatorError::SessionExists(4)));
    assert_eq!(check_start(4, false, &config, true, false), Err(CoordinatorError::SourceNotAvailable(4)));
    assert_eq!(check_start(4, false, &config, true, true), Ok(()));
}

#[test]
fn processing_task_activates_on_first_packet_and_counts() {
    let config = LiveStreamConfig::default();
    let mut s = TaskState::start();
    assert_eq!(s.status, SessionStatus::Starting);
    assert_eq!(s.step(TaskEvent::HealthChanged, &config, true), TaskAction::Wait);
    assert_eq!(s.step(TaskEvent::Packet, &config, true), TaskAction::FeedHls);
    assert_eq!(s.status, SessionStatus::Active);
    assert_eq!(s.step(TaskEvent::HlsFailed, &config, true), TaskAction::Wait);
    assert_eq!(s.step(TaskEvent::Packet, &config, false), TaskAction::Wait);
    assert_eq!(s.packets_processed, 2);
    assert_eq!(s.errors, 1);
    assert_eq!(s.step(TaskEvent::StartupTimeout, &config, true), TaskAction::Wait);
    assert_eq!(s.step(TaskEvent::ReaderExited, &config, true), TaskAction::Stop);
    assert_eq!(s.status, SessionStatus::Stopped);
}

#[test]
fn processing_task_fails_without_packets() {
    let config = LiveStreamConfig::default();
    let mut s = TaskState::start();
    assert_eq!(s.step(TaskEvent::StartupTimeout, &config, true), TaskAction::Stop);
    assert_eq!(s.status, SessionStatus::Error);
    let mut s = TaskState::start();
    assert_eq!(s.step(TaskEvent::Lagged, &config, true), TaskAction::Wait);
    assert_eq!(s.status, SessionStatus::Active);
    assert_eq!(s.packets_processed, 0);
    assert_eq!(s.step(TaskEvent::Closed, &config, true), TaskAction::Stop);
    assert_eq!(s.status, SessionStatus::Stopped);
}

#[test]
fn test_mse_live_config_default() {
    let config = MseLiveConfig::default();
    assert_eq!(config.segment_duration_ms, 500);
    assert_eq!(config.max_sessions, 100);
}

#[test]
fn test_session_state_serialize() {
    assert_eq!(MseSessionState::Active.as_str(), "active");
}

#[test]
fn mse_sessions_are_capped() {
    let config = MseLiveConfig { max_sessions: 2, ..MseLiveConfig::default() };
    assert_eq!(admit_session(1, &config), Ok(()));
    assert_eq!(admit_session(2, &config), Err(MseLiveError::MaxSessionsReached));
}

fn packet(data: Vec<u8>, ts: i64, key: bool) -> FifoPacket {
    FifoPacket { monitor_id: 1, timestamp_us: ts, data, is_keyframe: key, codec: VideoCodec::H264 }
}

#[test]
fn mse_stream_cuts_segments_and_counts_them() {
    let mut s = MseStream::new(1, 500);
    assert!(s.process_packet(&packet(vec![0, 0, 0, 1, 0x67, 0x42, 0x00, 0x1E, 0xAB, 0x40], 0, false)).is_none());
    assert!(s.process_packet(&packet(vec![0, 0, 0, 1, 0x68, 0xCE, 0x3C, 0x80], 0, false)).is_none());
    assert!(s.get_init_segment().is_some());
    assert!(s.process_packet(&packet(vec![0, 0, 0, 1, 0x65, 0x88, 0x80], 100_000, true)).is_none());
    for i in 1..=5i64 {
        s.process_packet(&packet(vec![0, 0, 0, 1, 0x41, 0x9A, i as u8], 100_000 + i * 200_000, false));
    }
    let seg = s.process_packet(&packet(vec![0, 0, 0, 1, 0x65, 0x88, 0x81], 1_300_000, true)).expect("segment");
    assert!(seg.is_keyframe);
    assert_eq!(seg.duration_ms, 1200);
    assert_eq!(seg.timestamp_us, 0);
    assert_eq!(s.segments_sent(), 1);
    assert_eq!(s.bytes_sent(), seg.data.len() as u64);
    assert!(s.process_packet(&packet(vec![0, 0, 0, 1, 0x41, 0x9A, 9], -1, false)).is_none());
}
