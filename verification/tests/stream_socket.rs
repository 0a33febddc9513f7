use zm_streaming::config::ZoneMinderConfig;
use zm_streaming::media::{h264_nal_type, AdtsHeader, AudioCodec, VideoCodec};
use zm_streaming::protocol::{CodecIds, EVENT_DETECTION, EVENT_SNAPSHOT, FLAG_KEYFRAME, HEADER_SIZE};
use zm_streaming::stream_socket::{stream_socket_path, SocketEvent, SourceError, StreamDecoder};

const SPS: &[u8] = &[0x00, 0x00, 0x00, 0x01, 0x67, 0x4D, 0x00, 0x33];
const PPS: &[u8] = &[0x00, 0x00, 0x00, 0x01, 0x68, 0xCE, 0x3C, 0x80];

fn ids() -> CodecIds {
    CodecIds { h264: 27, hevc: 173, aac: 86018, pcm_alaw: 65543, pcm_mulaw: 65542, opus: 86076 }
}

fn encode_message(msg_type: u8, stream: u8, flags: u8, sequence: u32, generation: u32, pts_us: i64, payload: &[u8]) -> Vec<u8> {
    let mut out = Vec::new();
    out.extend_from_slice(&(20 + payload.len() as u32).to_le_bytes());
    out.push(1);
    out.push(msg_type);
    out.push(stream);
    out.push(flags);
    out.extend_from_slice(&sequence.to_le_bytes());
    out.extend_from_slice(&generation.to_le_bytes());
    out.extend_from_slice(&(pts_us as u64).to_le_bytes());
    out.extend_from_slice(payload);
    out
}

fn tlv(tag: u8, value: &[u8]) -> Vec<u8> {
    let mut out = vec![tag];
    out.extend_from_slice(&(value.len() as u16).to_le_bytes());
    out.extend_from_slice(value);
    out
}

fn hello_payload(codec_id: u32, extradata: &[u8]) -> Vec<u8> {
    let mut p = tlv(0x01, &codec_id.to_le_bytes());
    if !extradata.is_empty() {
        p.extend_from_slice(&tlv(0x02, extradata));
    }
    p
}

fn idr_au() -> Vec<u8> {
    vec![0x00, 0x00, 0x00, 0x01, 0x65, 0x88, 0x84, 0x00]
}

fn p_slice_au() -> Vec<u8> {
    vec![0x00, 0x00, 0x00, 0x01, 0x41, 0x9A, 0x21]
}

fn extradata() -> Vec<u8> {
    let mut e = SPS.to_vec();
    e.extend_from_slice(PPS);
    e
}

fn drain(dec: &mut StreamDecoder) -> Vec<SocketEvent> {
    let mut events = Vec::new();
    while let Ok(Some(e)) = dec.next_event() {
        events.push(e);
    }
    events
}

#[test]
fn socket_path_follows_convention() {
    let config = ZoneMinderConfig { socks_path: "/run/zm".to_string(), ..ZoneMinderConfig::default() };
    assert_eq!(stream_socket_path(&config, 7), "/run/zm/stream_7.sock");
}

#[test]
fn handshake_then_keyframe_then_media() {
    let mut script = Vec::new();
    script.extend_from_slice(&encode_message(0x01, 0, 0, 0, 0, 0, &hello_payload(27, &extradata())));
    script.extend_from_slice(&encode_message(0x03, 0, FLAG_KEYFRAME, 5, 0, 9_000_000, &idr_au()));
    script.extend_from_slice(&encode_message(0x02, 0, 0, 6, 0, 9_040_000, &p_slice_au()));
    let mut dec = StreamDecoder::new(1, ids());
    dec.feed(&script);
    let events = drain(&mut dec);
    assert_eq!(events.len(), 5);
    let SocketEvent::VideoParams { codec } = &events[0] else {
        panic!("expected VideoParams first");
    };
    assert_eq!(*codec, VideoCodec::H264);
    let mut types = Vec::new();
    let mut keys = Vec::new();
    let mut times = Vec::new();
    for e in &events[1..] {
        match e {
            SocketEvent::Video(p) => {
                types.push(h264_nal_type(&p.data));
                keys.push(p.is_keyframe);
                times.push(p.timestamp_us);
            }
            other => panic!("expected video packet, got {other:?}"),
        }
    }
    assert_eq!(types, vec![Some(7), Some(8), Some(5), Some(1)]);
    assert_eq!(keys, vec![false, false, true, false]);
    assert_eq!(times, vec![0, 0, 0, 40_000]);
}

#[test]
fn keyframe_with_inband_sets_is_not_double_prefixed() {
    let mut au = extradata();
    au.extend_from_slice(&idr_au());
    let mut script = encode_message(0x01, 0, 0, 0, 0, 0, &hello_payload(27, &extradata()));
    script.extend_from_slice(&encode_message(0x03, 0, FLAG_KEYFRAME, 1, 0, 0, &au));
    let mut dec = StreamDecoder::new(2, ids());
    dec.feed(&script);
    let events = drain(&mut dec);
    let types: Vec<Option<u8>> = events[1..]
        .iter()
        .map(|e| match e {
            SocketEvent::Video(p) => h264_nal_type(&p.data),
            other => panic!("expected video packet, got {other:?}"),
        })
        .collect();
    assert_eq!(types, vec![Some(7), Some(8), Some(5)]);
}

#[test]
fn raw_aac_is_adts_framed_with_shared_clock() {
    let mut script = encode_message(0x01, 0, 0, 0, 0, 0, &hello_payload(27, &extradata()));
    let mut audio_hello = tlv(0x01, &86018u32.to_le_bytes());
    audio_hello.extend_from_slice(&tlv(0x02, &[0x14, 0x08]));
    script.extend_from_slice(&encode_message(0x01, 1, 0, 0, 0, 0, &audio_hello));
    script.extend_from_slice(&encode_message(0x03, 0, FLAG_KEYFRAME, 1, 0, 1_000_000, &idr_au()));
    let raw_aac = vec![0x21, 0x1B, 0x80, 0x00];
    script.extend_from_slice(&encode_message(0x02, 1, 0, 2, 0, 1_064_000, &raw_aac));
    let mut dec = StreamDecoder::new(3, ids());
    dec.feed(&script);
    let events = drain(&mut dec);
    let mut saw_params = false;
    let mut audio = None;
    for e in &events {
        match e {
            SocketEvent::AudioParams { codec } => {
                assert_eq!(*codec, AudioCodec::Aac);
                saw_params = true;
            }
            SocketEvent::Audio(p) => audio = Some(p.clone()),
            _ => {}
        }
    }
    assert!(saw_params);
    let packet = audio.expect("audio packet");
    assert_eq!(packet.codec, AudioCodec::Aac);
    assert_eq!(packet.timestamp_us, 64_000);
    let h = AdtsHeader::parse(&packet.data).expect("ADTS framed");
    assert_eq!(h.sample_rate, 16000);
    assert_eq!(h.channel_configuration, 1);
    assert_eq!(&packet.data[h.header_len..], &raw_aac[..]);
}

#[test]
fn bye_and_eof_surface_as_closed() {
    let mut script = encode_message(0x01, 0, 0, 0, 0, 0, &hello_payload(27, &[]));
    script.extend_from_slice(&encode_message(0x05, 0, 0, 1, 0, 0, &[]));
    let mut dec = StreamDecoder::new(5, ids());
    dec.feed(&script);
    assert!(matches!(dec.next_event(), Ok(Some(SocketEvent::VideoParams { .. }))));
    assert!(matches!(dec.next_event(), Err(SourceError::Closed)));
}

#[test]
fn stats_and_unknown_messages_are_skipped() {
    let mut stats_payload = 100u64.to_le_bytes().to_vec();
    stats_payload.extend_from_slice(&3u64.to_le_bytes());
    let mut script = encode_message(0x01, 0, 0, 0, 0, 0, &hello_payload(27, &extradata()));
    script.extend_from_slice(&encode_message(0x04, 0, 0, 1, 0, 0, &stats_payload));
    script.extend_from_slice(&encode_message(0x77, 0, 0, 2, 0, 0, &[1, 2, 3]));
    script.extend_from_slice(&encode_message(0x03, 0, FLAG_KEYFRAME, 3, 0, 0, &idr_au()));
    let mut dec = StreamDecoder::new(6, ids());
    dec.feed(&script);
    let events = drain(&mut dec);
    assert!(matches!(events[0], SocketEvent::VideoParams { .. }));
    assert!(matches!(events[3], SocketEvent::Video(_)));
}

#[test]
fn monitor_events_are_surfaced_between_media() {
    let detection_json = r#"{"objects":[]}"#;
    let mut snap = EVENT_SNAPSHOT.to_le_bytes().to_vec();
    snap.extend_from_slice(&tlv(0x07, &0u16.to_le_bytes()));
    let mut det = EVENT_DETECTION.to_le_bytes().to_vec();
    det.extend_from_slice(&tlv(0x10, detection_json.as_bytes()));
    let mut script = encode_message(0x01, 0, 0, 0, 0, 0, &hello_payload(27, &[]));
    script.extend_from_slice(&encode_message(0x06, 2, 0, 1, 0, 0, &snap));
    script.extend_from_slice(&encode_message(0x06, 2, 0, 2, 0, 0, &det));
    script.extend_from_slice(&encode_message(0x03, 0, FLAG_KEYFRAME, 3, 0, 0, &idr_au()));
    let mut dec = StreamDecoder::new(7, ids());
    dec.feed(&script);
    let events = drain(&mut dec);
    assert!(matches!(events[0], SocketEvent::VideoParams { .. }));
    let SocketEvent::MonitorEvent(s) = &events[1] else { panic!("snapshot expected") };
    assert_eq!(s.code, EVENT_SNAPSHOT);
    assert_eq!(s.health_code, Some(0));
    let SocketEvent::MonitorEvent(d) = &events[2] else { panic!("detection expected") };
    assert_eq!(d.code, EVENT_DETECTION);
    assert_eq!(d.json_detail.as_deref(), Some(detection_json));
    assert!(matches!(events[3], SocketEvent::Video(_)));
}

#[test]
fn corrupt_header_is_a_protocol_error() {
    let mut script = encode_message(0x01, 0, 0, 0, 0, 0, &hello_payload(27, &[]));
    script.extend_from_slice(&[0xFF; HEADER_SIZE]);
    let mut dec = StreamDecoder::new(8, ids());
    dec.feed(&script);
    assert!(matches!(dec.next_event(), Ok(Some(SocketEvent::VideoParams { .. }))));
    assert!(matches!(dec.next_event(), Err(SourceError::Protocol(_))));
}

#[test]
fn partial_message_waits_for_more_bytes() {
    let msg = encode_message(0x01, 0, 0, 0, 0, 0, &hello_payload(27, &[]));
    let mut dec = StreamDecoder::new(9, ids());
    dec.feed(&msg[..10]);
    assert!(matches!(dec.next_event(), Ok(None)));
    dec.feed(&msg[10..]);
    assert!(matches!(dec.next_event(), Ok(Some(SocketEvent::VideoParams { .. }))));
}
