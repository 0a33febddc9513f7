use zm_streaming::audio::{
    encoder_frame_size, opus_frame_duration_us, output_channels, resample_capacity,
    samples_from_le_bytes, samples_to_le_bytes, SampleBuffer,
};
use zm_streaming::command::{is_on_demand_result, is_result_code, result_outcome, CommandError, PendingTable};
use zm_streaming::worker_status::{
    control_protocol, degraded_update, event_stream_id, next_worker_state, status_error,
    status_time_ms, version_text, DegradedUpdate, StatusEvent, StatusKind, StreamState, WorkerRecord,
};

#[test]
fn status_codes_map_to_kinds_and_states() {
    assert_eq!(StatusKind::from_code(0x0401), Some(StatusKind::WorkerState));
    assert_eq!(StatusKind::from_code(0x0402).unwrap().stream_state(), Some(StreamState::AuthFailed));
    assert_eq!(StatusKind::from_code(0x0101).unwrap().as_str(), "connection_failed");
    assert_eq!(StatusKind::from_code(0x0106).unwrap().stream_state(), Some(StreamState::Streaming));
    assert!(!StatusKind::CaptureResumed.keeps_error());
    assert!(StatusKind::CaptureFailed.keeps_error());
    assert_eq!(StatusKind::from_code(0x0301), None);
    assert_eq!(StreamState::AuthFailed.as_str(), "auth_failed");
}

#[test]
fn status_details_are_read_with_defaults() {
    assert_eq!(status_time_ms(Some(1_700_000_000_000_000), 5), 1_700_000_000_000);
    assert_eq!(status_time_ms(None, 5), 5);
    assert_eq!(event_stream_id(Some(3)), 3);
    assert_eq!(event_stream_id(None), 0);
    assert_eq!(status_error(None, Some("camera unreachable".into()), false).as_deref(), Some("camera unreachable"));
    assert_eq!(status_error(None, Some("x".into()), true), None);
    assert_eq!(status_error(Some("EOF".into()), Some("x".into()), true).as_deref(), Some("EOF"));
    assert_eq!(next_worker_state(None, Some("running".into())).as_deref(), Some("running"));
    assert_eq!(next_worker_state(Some("configuring".into()), Some("running".into())).as_deref(), Some("configuring"));
    assert_eq!(version_text("0.1.0", "9217bdf"), "0.1.0 (9217bdf)");
    assert_eq!(version_text("0.1.0", ""), "0.1.0");
    assert_eq!(control_protocol(0), None);
    assert_eq!(control_protocol(1), Some(1));
}

#[test]
fn degraded_components_set_and_recover() {
    assert_eq!(
        degraded_update(Some("zm-infer".into()), Some("detection skipped".into())),
        DegradedUpdate::Down { component: "zm-infer".into(), effect: "detection skipped".into() }
    );
    assert_eq!(
        degraded_update(Some("zm-infer".into()), Some(String::new())),
        DegradedUpdate::Recovered { component: "zm-infer".into() }
    );
    assert_eq!(degraded_update(None, None), DegradedUpdate::Recovered { component: "unknown".into() });
}

#[test]
fn pending_requests_resolve_once() {
    let mut t = PendingTable::new();
    t.register(10, 1, 100);
    t.register(11, 1, 100);
    t.register(12, 2, 200);
    assert_eq!(t.len(), 3);
    assert!(!t.on_response(100, 10, true));
    assert!(t.get(10).unwrap().dispatched);
    assert_eq!(t.get(12).unwrap().monitor_id, 2);
    assert!(t.get(99).is_none());
    assert_eq!(t.timeout_error(10, 5000), CommandError::NoResult(5000));
    assert_eq!(t.timeout_error(11, 5000), CommandError::Timeout(5000));
    assert!(!t.on_response(200, 11, false));
    assert!(t.on_response(100, 11, false));
    assert!(!t.on_result(2, 10));
    assert!(t.on_result(1, 10));
    assert!(!t.on_result(1, 10));
    assert_eq!(t.on_disconnect(200), vec![12]);
    assert_eq!(t.len(), 0);
    t.register(13, 1, 100);
    t.remove(13);
    assert_eq!(t.len(), 0);
}

#[test]
fn plugin_results_become_outcomes() {
    assert_eq!(result_outcome(Some(true), None), Ok(()));
    assert_eq!(result_outcome(Some(false), Some("boom".into())), Err(CommandError::Failed("boom".into())));
    assert_eq!(
        result_outcome(None, None),
        Err(CommandError::Failed("the plugin reported a failure without a reason".into()))
    );
}

#[test]
fn opus_bookkeeping() {
    assert_eq!(output_channels(6), 2);
    assert_eq!(output_channels(1), 1);
    assert_eq!(output_channels(0), 1);
    assert_eq!(encoder_frame_size(0), 960);
    assert_eq!(encoder_frame_size(480), 480);
    assert_eq!(opus_frame_duration_us(960), 20_000);
    assert_eq!(resample_capacity(1024, 16_000, 5), Some(1024 * 3 + 5 + 64));
    assert_eq!(resample_capacity(10, 0, 0), Some(480_064));
}

#[test]
fn samples_round_trip_through_bytes() {
    let samples = vec![0i16, 1, -1, i16::MAX, i16::MIN, 256];
    let bytes = samples_to_le_bytes(&samples);
    let mut expect = Vec::new();
    for s in &samples {
        expect.extend_from_slice(&s.to_le_bytes());
    }
    assert_eq!(bytes, expect);
    assert_eq!(samples_from_le_bytes(&bytes, samples.len()), samples);
}

#[test]
fn sample_buffer_hands_out_whole_frames() {
    let mut b = SampleBuffer::new(2, 3);
    b.push_samples(&[1, 2, 3, 4, 5]);
    assert!(b.next_chunk().is_none());
    b.push_samples(&[6, 7, 8]);
    let (chunk, pts) = b.next_chunk().expect("one frame");
    assert_eq!(chunk, vec![1, 2, 3, 4, 5, 6]);
    assert_eq!(pts, 0);
    assert_eq!(b.len(), 2);
    b.push_samples(&[9, 10, 11, 12]);
    let (chunk, pts) = b.next_chunk().expect("second frame");
    assert_eq!(chunk, vec![7, 8, 9, 10, 11, 12]);
    assert_eq!(pts, 3);
}


fn status_event(kind: StatusKind) -> StatusEvent {
    StatusEvent {
        kind,
        wall_clock_us: None,
        now_ms: 42,
        stream_id: None,
        error: None,
        message: None,
        has_detail: true,
        attempt: None,
        state: None,
        reason: None,
        pipeline_hash: None,
        component: None,
        effect: None,
    }
}

fn stream<'a>(w: &'a WorkerRecord, sid: u32) -> &'a zm_streaming::worker_status::StreamRecord {
    &w.streams.iter().find(|(k, _)| *k == sid).expect("stream recorded").1
}

#[test]
fn hello_sets_versions_and_state() {
    let mut s = WorkerRecord::new();
    s.apply_hello("running", Some("sha256:ab".to_string()), "0.1.0", "9217bdf", 1, true);
    assert_eq!(s.state.as_deref(), Some("running"));
    assert_eq!(s.pipeline_hash.as_deref(), Some("sha256:ab"));
    assert_eq!(s.zm_next_version.as_deref(), Some("0.1.0 (9217bdf)"));
    assert_eq!(s.control_protocol, Some(1));
    assert!(s.control_peer);
}

#[test]
fn auth_failure_then_recovery() {
    let mut s = WorkerRecord::new();
    let mut e = status_event(StatusKind::StreamAuthFailed);
    e.stream_id = Some(0);
    e.wall_clock_us = Some(1_700_000_000_000_000);
    s.apply(&e);
    assert_eq!(stream(&s, 0).state, StreamState::AuthFailed);
    assert_eq!(stream(&s, 0).since_ms, 1_700_000_000_000);
    let mut e = status_event(StatusKind::ConnectionRestored);
    e.stream_id = Some(0);
    e.has_detail = false;
    s.apply(&e);
    assert_eq!(stream(&s, 0).state, StreamState::Streaming);
    assert_eq!(stream(&s, 0).error, None);
    assert_eq!(s.streams.len(), 1);
}

#[test]
fn connection_and_capture_failures_are_per_stream() {
    let mut s = WorkerRecord::new();
    let mut e = status_event(StatusKind::ConnectionFailed);
    e.stream_id = Some(1);
    e.error = Some("Connection refused".to_string());
    e.attempt = Some(2);
    s.apply(&e);
    let mut e = status_event(StatusKind::CaptureFailed);
    e.stream_id = Some(0);
    e.error = Some("EOF".to_string());
    s.apply(&e);
    assert_eq!(stream(&s, 1).state, StreamState::ConnectionFailed);
    assert_eq!(stream(&s, 1).attempt, Some(2));
    assert_eq!(stream(&s, 1).error.as_deref(), Some("Connection refused"));
    assert_eq!(stream(&s, 0).state, StreamState::CaptureFailed);
    let mut e = status_event(StatusKind::CaptureResumed);
    e.stream_id = Some(0);
    s.apply(&e);
    assert_eq!(stream(&s, 0).state, StreamState::Streaming);
    assert_eq!(stream(&s, 1).state, StreamState::ConnectionFailed);
}

#[test]
fn plain_text_lifecycle_message_becomes_the_error() {
    let mut s = WorkerRecord::new();
    let mut e = status_event(StatusKind::ConnectionFailed);
    e.has_detail = false;
    e.message = Some("camera unreachable".to_string());
    s.apply(&e);
    assert_eq!(stream(&s, 0).error.as_deref(), Some("camera unreachable"));
    assert_eq!(stream(&s, 0).since_ms, 42);
}

#[test]
fn worker_state_and_degraded() {
    let mut s = WorkerRecord::new();
    let mut e = status_event(StatusKind::WorkerState);
    e.state = Some("configuring".to_string());
    e.pipeline_hash = Some("sha256:1".to_string());
    e.reason = Some("configure".to_string());
    s.apply(&e);
    assert_eq!(s.state.as_deref(), Some("configuring"));
    assert_eq!(s.reason.as_deref(), Some("configure"));
    assert_eq!(s.pipeline_hash.as_deref(), Some("sha256:1"));
    let mut e = status_event(StatusKind::WorkerDegraded);
    e.component = Some("zm-infer".to_string());
    e.effect = Some("detection skipped".to_string());
    s.apply(&e);
    assert_eq!(s.degraded, vec![("zm-infer".to_string(), "detection skipped".to_string())]);
    let mut e = status_event(StatusKind::WorkerDegraded);
    e.component = Some("zm-infer".to_string());
    e.effect = Some(String::new());
    s.apply(&e);
    assert!(s.degraded.is_empty());
    // A later worker-state event without a state or hash keeps both and
    // clears the reason.
    s.apply(&status_event(StatusKind::WorkerState));
    assert_eq!(s.state.as_deref(), Some("configuring"));
    assert_eq!(s.pipeline_hash.as_deref(), Some("sha256:1"));
    assert_eq!(s.reason, None);
}

#[test]
fn other_codes_are_not_status() {
    assert_eq!(StatusKind::from_code(0x0301), None);
    assert_eq!(WorkerRecord::new(), WorkerRecord::new());
}

#[test]
fn disconnect_clears_state_but_keeps_last_known_streams() {
    let mut s = WorkerRecord::new();
    s.apply_hello("running", None, "0.1.0", "", 0, true);
    let mut e = status_event(StatusKind::ConnectionFailed);
    e.stream_id = Some(0);
    s.apply(&e);
    s.apply_disconnect();
    assert_eq!(s.state, None);
    assert!(!s.control_peer);
    assert_eq!(s.streams.len(), 1);
    assert_eq!(s.zm_next_version.as_deref(), Some("0.1.0"));
    assert_eq!(s.control_protocol, None);
}

#[test]
fn unnamed_degraded_component_is_unknown() {
    let mut s = WorkerRecord::new();
    let mut e = status_event(StatusKind::WorkerDegraded);
    e.effect = Some("down".to_string());
    s.apply(&e);
    assert_eq!(s.degraded, vec![("unknown".to_string(), "down".to_string())]);
}

#[test]
fn on_demand_detail_only_matches_tagged_results() {
    // Descriptions and codes the protocol gives no other meaning carry
    // results; a tagged detection does not.
    assert!(is_on_demand_result(0x0302, Some(true)));
    assert!(is_on_demand_result(0x0304, Some(true)));
    assert!(!is_on_demand_result(0x0304, None));
    assert!(!is_on_demand_result(0x0302, Some(false)));
    assert!(!is_on_demand_result(0x0301, Some(true)));
    assert!(!is_result_code(0x0401));
    assert!(!is_result_code(0x0001));
}
