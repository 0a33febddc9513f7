//! The segment window of a live media playlist: which segments it still
//! lists and the media sequence number of the first one. (The playlist's
//! text, with its floating-point durations, is written by the caller.)

use vstd::prelude::*;

verus! {

/// Trim a live playlist's segments to its last `max_segments`, moving the
/// media sequence number past the segments dropped; returns the new media
/// sequence number. The number the next segment gets, the media sequence
/// plus the count, is unchanged.
pub fn trim_window<T>(segments: &mut Vec<T>, media_sequence: u64, max_segments: usize) -> (new_sequence: u64)
    requires
        old(segments)@.len() <= max_segments || media_sequence + (old(segments)@.len() - max_segments) <= u64::MAX,
    ensures
        old(segments)@.len() > max_segments ==> final(segments)@ == old(segments)@.subrange(
            old(segments)@.len() - max_segments,
            old(segments)@.len() as int,
        ) && new_sequence == media_sequence + (old(segments)@.len() - max_segments),
        old(segments)@.len() <= max_segments ==> final(segments)@ == old(segments)@ && new_sequence == media_sequence,
        new_sequence + final(segments)@.len() == media_sequence + old(segments)@.len(),
{
    let n = segments.len();
    if n > max_segments {
        let remove = n - max_segments;
        let rest = segments.split_off(remove);
        *segments = rest;
        media_sequence + remove as u64
    } else {
        media_sequence
    }
}

/// The media sequence number the next segment gets.
pub fn current_sequence(media_sequence: u64, len: usize) -> (r: u64)
    requires
        media_sequence + len <= u64::MAX,
    ensures
        r == media_sequence + len,
{
    media_sequence + len as u64
}

} // verus!
