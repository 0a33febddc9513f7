use zm_streaming::playlist::{current_sequence, trim_window};

#[test]
fn test_playlist_trim() {
    let mut segments: Vec<String> = (0..10).map(|i| format!("segment_{:05}.m4s", i)).collect();
    assert_eq!(segments.len(), 10);
    let seq = trim_window(&mut segments, 0, 6);
    assert_eq!(segments.len(), 6);
    assert_eq!(seq, 4);
    assert_eq!(segments[0], "segment_00004.m4s");
    assert_eq!(current_sequence(seq, segments.len()), 10);
}

#[test]
fn trim_within_size_changes_nothing() {
    let mut segments = vec![1u8, 2, 3];
    assert_eq!(trim_window(&mut segments, 7, 5), 7);
    assert_eq!(segments, vec![1, 2, 3]);
}
