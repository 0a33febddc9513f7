//! HLS segment storage: which segments of a monitor are kept, under which
//! file names, and which of them a cleanup removes.
//!
//! The files themselves are written, read and deleted by the caller; this
//! module keeps the per-monitor index of stored segments, ordered by
//! sequence number.

use vstd::prelude::*;
use crate::text::{decimal_chars, push_decimal, push_digit, push_str};

verus! {

/// Information about a stored segment.
#[derive(Debug, Clone)]
pub struct SegmentInfo {
    pub sequence: u64,
    /// Path of the segment file.
    pub path: String,
    pub size: u64,
    /// Duration in microseconds.
    pub duration_us: u64,
    /// Time the segment was stored, in microseconds of the caller's clock.
    pub created_at_us: u64,
    pub is_partial: bool,
}

/// Storage configuration. Times are in milliseconds.
#[derive(Debug, Clone)]
pub struct StorageConfig {
    pub base_path: String,
    /// Segments older than this are removed by a cleanup.
    pub retention_ms: u64,
    pub cleanup_interval_ms: u64,
    /// At most this many segments are kept per monitor.
    pub max_segments_per_stream: usize,
}

impl Default for StorageConfig {
    /// `/tmp/hls`, 30 minutes of retention, a cleanup every minute, at most
    /// 100 segments per monitor.
    fn default() -> (r: Self)
        ensures
            r.base_path@ == "/tmp/hls"@,
            r.retention_ms == 1_800_000,
            r.cleanup_interval_ms == 60_000,
            r.max_segments_per_stream == 100,
    {
        let mut base_path = String::new();
        push_str(&mut base_path, "/tmp/hls");
        assert(Seq::<char>::empty() + "/tmp/hls"@ =~= "/tmp/hls"@);
        StorageConfig { base_path, retention_ms: 1_800_000, cleanup_interval_ms: 60_000, max_segments_per_stream: 100 }
    }
}

/// Storage statistics of one monitor.
#[derive(Debug, Clone, Copy, PartialEq, Eq, Structural)]
pub struct StorageStats {
    pub segment_count: usize,
    pub partial_segment_count: usize,
    pub total_size: u64,
    /// Total duration in microseconds.
    pub total_duration_us: u64,
    pub has_init_segment: bool,
    pub oldest_sequence: Option<u64>,
    pub newest_sequence: Option<u64>,
}

/// Storage errors.
#[derive(Debug, Clone, PartialEq, Eq)]
pub enum StorageError {
    /// A file operation on `path` failed with `message`.
    IoError { path: String, message: String },
    NotFound { monitor_id: u32, sequence: u64 },
    NotInitialized(u32),
}

// ---------------------------------------------------------------------------
// File names
// ---------------------------------------------------------------------------

/// `n` in decimal, padded with zeros to at least five digits.
pub open spec fn padded5(n: nat) -> Seq<char> {
    let d = decimal_chars(n);
    if d.len() >= 5 {
        d
    } else {
        Seq::new((5 - d.len()) as nat, |i: int| '0') + d
    }
}

/// The file name of a media segment: `segment_{sequence:05}.m4s`.
pub open spec fn spec_segment_file_name(sequence: u64) -> Seq<char> {
    "segment_"@ + padded5(sequence as nat) + ".m4s"@
}

/// The file name of a partial segment: `segment_{sequence:05}.{part}.m4s`.
pub open spec fn spec_partial_file_name(sequence: u64, part: u32) -> Seq<char> {
    "segment_"@ + padded5(sequence as nat) + "."@ + decimal_chars(part as nat) + ".m4s"@
}

/// Append `n` zero-padded to five digits.
fn push_padded5(out: &mut String, n: u64)
    ensures
        final(out)@ == old(out)@ + padded5(n as nat),
{
    let width: u64 = if n < 10 { 1 } else if n < 100 { 2 } else if n < 1000 { 3 } else if n < 10000 { 4 } else { 5 };
    proof {
        lemma_decimal_len(n as nat);
    }
    let ghost start = out@;
    let mut k: u64 = width;
    while k < 5
        invariant
            width <= k <= 5,
            width <= 5,
            out@ == start + Seq::new((k - width) as nat, |i: int| '0'),
        decreases 5 - k,
    {
        push_digit(out, 0);
        k = k + 1;
        assert(out@ =~= start + Seq::new((k - width) as nat, |i: int| '0'));
    }
    push_decimal(out, n);
}

/// The number of decimal digits of `n`, as far as five.
proof fn lemma_decimal_len(n: nat)
    ensures
        n < 10 ==> decimal_chars(n).len() == 1,
        10 <= n < 100 ==> decimal_chars(n).len() == 2,
        100 <= n < 1000 ==> decimal_chars(n).len() == 3,
        1000 <= n < 10000 ==> decimal_chars(n).len() == 4,
        n >= 10000 ==> decimal_chars(n).len() >= 5,
    decreases n,
{
    if n >= 10 {
        lemma_decimal_len(n / 10);
    }
}

/// The file name of a media segment (see [`spec_segment_file_name`]).
pub fn segment_file_name(sequence: u64) -> (r: String)
    ensures
        r@ == spec_segment_file_name(sequence),
{
    let mut out = String::new();
    push_str(&mut out, "segment_");
    push_padded5(&mut out, sequence);
    push_str(&mut out, ".m4s");
    assert(out@ =~= spec_segment_file_name(sequence));
    out
}

/// The file name of a partial segment (see [`spec_partial_file_name`]).
pub fn partial_file_name(sequence: u64, part: u32) -> (r: String)
    ensures
        r@ == spec_partial_file_name(sequence, part),
{
    let mut out = String::new();
    push_str(&mut out, "segment_");
    push_padded5(&mut out, sequence);
    push_str(&mut out, ".");
    push_decimal(&mut out, part as u64);
    push_str(&mut out, ".m4s");
    assert(out@ =~= spec_partial_file_name(sequence, part));
    out
}

/// Whether a file left in a monitor's directory by an earlier session is
/// one of ours: the init segment, or a (partial) media segment.
pub open spec fn spec_is_stale_file(name: Seq<char>) -> bool {
    name == "init.mp4"@
        || (name.len() >= 8 && name.subrange(0, 8) == "segment_"@ && name.len() >= 4
            && name.subrange(name.len() - 4, name.len() as int) == ".m4s"@)
}

/// Whether `name` is a file a session start clears
/// (see [`spec_is_stale_file`]).
pub fn is_stale_file(name: &str) -> (r: bool)
    ensures
        r == spec_is_stale_file(name@),
{
    proof {
        reveal_strlit("init.mp4");
        reveal_strlit("segment_");
        reveal_strlit(".m4s");
    }
    let init = "init.mp4";
    let prefix = "segment_";
    let suffix = ".m4s";
    let n = name.unicode_len();
    if str_equal(name, init) {
        return true;
    }
    if n < 8 {
        return false;
    }
    assert(prefix@.len() == 8 && suffix@.len() == 4);
    let mut i: usize = 0;
    while i < 8
        invariant
            n == name@.len(),
            8 <= n,
            i <= 8,
            prefix@ == "segment_"@,
            prefix@.len() == 8,
            name@ != "init.mp4"@,
            forall|j: int| 0 <= j < i ==> name@[j] == prefix@[j],
        decreases 8 - i,
    {
        if name.get_char(i) != prefix.get_char(i) {
            assert(name@.subrange(0, 8)[i as int] != "segment_"@[i as int]);
            return false;
        }
        i = i + 1;
    }
    assert(name@.subrange(0, 8) =~= "segment_"@);
    let mut k: usize = 0;
    while k < 4
        invariant
            n == name@.len(),
            8 <= n,
            k <= 4,
            suffix@ == ".m4s"@,
            suffix@.len() == 4,
            name@ != "init.mp4"@,
            name@.subrange(0, 8) == "segment_"@,
            forall|j: int| 0 <= j < k ==> name@[n - 4 + j] == suffix@[j],
        decreases 4 - k,
    {
        if name.get_char(n - 4 + k) != suffix.get_char(k) {
            assert(name@.subrange(n - 4, n as int)[k as int] != ".m4s"@[k as int]);
            return false;
        }
        k = k + 1;
    }
    assert(name@.subrange(n - 4, n as int) =~= ".m4s"@);
    true
}

/// Whether two strings are equal.
pub(crate) fn str_equal(a: &str, b: &str) -> (r: bool)
    ensures
        r == (a@ == b@),
{
    let n = a.unicode_len();
    if n != b.unicode_len() {
        return false;
    }
    let mut i: usize = 0;
    while i < n
        invariant
            n == a@.len(),
            n == b@.len(),
            i <= n,
            forall|j: int| 0 <= j < i ==> a@[j] == b@[j],
        decreases n - i,
    {
        if a.get_char(i) != b.get_char(i) {
            return false;
        }
        i = i + 1;
    }
    assert(a@ =~= b@);
    true
}

// ---------------------------------------------------------------------------
// The index of one monitor
// ---------------------------------------------------------------------------

/// Sequence numbers strictly increase along `s`.
pub open spec fn sorted_by_sequence(s: Seq<SegmentInfo>) -> bool {
    forall|i: int, j: int| 0 <= i < j < s.len() ==> s[i].sequence < s[j].sequence
}

/// Whether the segment of `sequence` is in `s`.
pub open spec fn holds_sequence(s: Seq<SegmentInfo>, sequence: u64) -> bool {
    exists|i: int| 0 <= i < s.len() && s[i].sequence == sequence
}

/// How many segments of `s` come before `sequence`.
pub open spec fn count_before(s: Seq<SegmentInfo>, sequence: u64) -> nat
    decreases s.len(),
{
    if s.len() == 0 {
        0
    } else if s.last().sequence < sequence {
        count_before(s.drop_last(), sequence) + 1
    } else {
        count_before(s.drop_last(), sequence)
    }
}

/// The segments after storing `info`: it replaces the segment of the same
/// sequence, or goes in at its place in the order.
pub open spec fn spec_insert_segment(s: Seq<SegmentInfo>, info: SegmentInfo) -> Seq<SegmentInfo> {
    let p = count_before(s, info.sequence) as int;
    if p < s.len() && s[p].sequence == info.sequence {
        s.update(p, info)
    } else {
        s.insert(p, info)
    }
}

/// Whether a segment has outlived the retention at time `now_us`.
pub open spec fn expired(info: SegmentInfo, now_us: u64, retention_us: u64) -> bool {
    now_us > info.created_at_us && now_us - info.created_at_us > retention_us
}

/// Whether a cleanup removes the segment at index `i` of `s`: it has
/// expired, or it is one of the oldest that exceed `max`.
pub open spec fn cleanup_selects(s: Seq<SegmentInfo>, i: int, now_us: u64, retention_us: u64, max: usize) -> bool {
    expired(s[i], now_us, retention_us) || (s.len() > max && i < s.len() - max)
}

/// The first `n` segments of `s` split into those a cleanup keeps and
/// those it removes, each in order.
pub open spec fn cleanup_split(s: Seq<SegmentInfo>, n: nat, now_us: u64, retention_us: u64, max: usize) -> (Seq<SegmentInfo>, Seq<SegmentInfo>)
    decreases n,
{
    if n == 0 {
        (Seq::empty(), Seq::empty())
    } else {
        let (kept, removed) = cleanup_split(s, (n - 1) as nat, now_us, retention_us, max);
        if cleanup_selects(s, n - 1, now_us, retention_us, max) {
            (kept, removed.push(s[n - 1]))
        } else {
            (kept.push(s[n - 1]), removed)
        }
    }
}

/// A partial segment, keyed by its segment's sequence and its part index.
#[derive(Debug, Clone)]
pub struct PartialInfo {
    pub sequence: u64,
    pub part_index: u32,
    pub info: SegmentInfo,
}

/// The stored segments of one monitor.
pub struct MonitorIndex {
    init_segment: Option<Vec<u8>>,
    segments: Vec<SegmentInfo>,
    partials: Vec<PartialInfo>,
    last_cleanup_us: u64,
}

/// The value of a [`MonitorIndex`].
pub struct MonitorIndexView {
    pub init_segment: Option<Seq<u8>>,
    pub segments: Seq<SegmentInfo>,
    pub partials: Seq<PartialInfo>,
    pub last_cleanup_us: u64,
}

impl View for MonitorIndex {
    type V = MonitorIndexView;

    closed spec fn view(&self) -> MonitorIndexView {
        MonitorIndexView {
            init_segment: match self.init_segment {
                Some(v) => Some(v@),
                None => None,
            },
            segments: self.segments@,
            partials: self.partials@,
            last_cleanup_us: self.last_cleanup_us,
        }
    }
}

/// The kept segments of `cleanup_split` are ordered, come from the first
/// `n` segments, keep nothing expired, and number at most `max` once the
/// first `n` cover all excess.
proof fn lemma_cleanup_split(s: Seq<SegmentInfo>, n: nat, now_us: u64, retention_us: u64, max: usize)
    requires
        sorted_by_sequence(s),
        n <= s.len(),
    ensures
        sorted_by_sequence(cleanup_split(s, n, now_us, retention_us, max).0),
        n > 0 ==> forall|j: int| 0 <= j < cleanup_split(s, n, now_us, retention_us, max).0.len()
            ==> cleanup_split(s, n, now_us, retention_us, max).0[j].sequence <= s[n - 1].sequence,
        forall|j: int| 0 <= j < cleanup_split(s, n, now_us, retention_us, max).0.len()
            ==> !expired(cleanup_split(s, n, now_us, retention_us, max).0[j], now_us, retention_us),
        forall|j: int| 0 <= j < cleanup_split(s, n, now_us, retention_us, max).1.len()
            ==> holds_sequence(s, cleanup_split(s, n, now_us, retention_us, max).1[j].sequence),
        cleanup_split(s, n, now_us, retention_us, max).0.len() + cleanup_split(s, n, now_us, retention_us, max).1.len() == n,
        s.len() > max && n >= s.len() - max ==> cleanup_split(s, n, now_us, retention_us, max).0.len() <= n - (s.len() - max),
        s.len() > max && n < s.len() - max ==> cleanup_split(s, n, now_us, retention_us, max).0.len() == 0,
    decreases n,
{
    if n > 0 {
        lemma_cleanup_split(s, (n - 1) as nat, now_us, retention_us, max);
        let (kept, removed) = cleanup_split(s, (n - 1) as nat, now_us, retention_us, max);
        if !cleanup_selects(s, n - 1, now_us, retention_us, max) {
            if n >= 2 {
                assert(s[n - 2].sequence < s[n - 1].sequence);
            }
            let k2 = kept.push(s[n - 1]);
            assert forall|i: int, j: int| 0 <= i < j < k2.len()
                implies #[trigger] k2[i].sequence < #[trigger] k2[j].sequence by {
                if j == kept.len() {
                    assert(kept[i].sequence <= s[n - 2].sequence);
                }
            }
        } else {
            assert(holds_sequence(s, s[n - 1].sequence));
            let r2 = removed.push(s[n - 1]);
            assert forall|j: int| 0 <= j < r2.len()
                implies holds_sequence(s, #[trigger] r2[j].sequence) by {
                if j < removed.len() {
                    assert(r2[j] == removed[j]);
                }
            }
            if n >= 2 {
                assert(s[n - 2].sequence < s[n - 1].sequence);
            }
        }
    }
}

/// Statistics of a list of segments.
pub open spec fn total_size(s: Seq<SegmentInfo>) -> int
    decreases s.len(),
{
    if s.len() == 0 { 0 } else { total_size(s.drop_last()) + s.last().size }
}

/// Total duration of a list of segments, in microseconds.
pub open spec fn total_duration(s: Seq<SegmentInfo>) -> int
    decreases s.len(),
{
    if s.len() == 0 { 0 } else { total_duration(s.drop_last()) + s.last().duration_us }
}

/// `x` clamped to the range of `u64`.
pub open spec fn clamp_u64(x: int) -> u64 {
    if x > u64::MAX { u64::MAX } else { x as u64 }
}

impl MonitorIndex {
    /// The index's invariant: segments ordered by sequence.
    pub closed spec fn wf(&self) -> bool {
        sorted_by_sequence(self.segments@)
    }

    /// An empty index whose last cleanup was at `now_us`.
    pub fn new(now_us: u64) -> (r: Self)
        ensures
            r.wf(),
            r@.init_segment is None,
            r@.segments == Seq::<SegmentInfo>::empty(),
            r@.partials == Seq::<PartialInfo>::empty(),
            r@.last_cleanup_us == now_us,
    {
        MonitorIndex { init_segment: None, segments: Vec::new(), partials: Vec::new(), last_cleanup_us: now_us }
    }

    /// Keep the init segment.
    pub fn set_init_segment(&mut self, data: Vec<u8>)
        requires
            old(self).wf(),
        ensures
            final(self).wf(),
            final(self)@ == (MonitorIndexView { init_segment: Some(data@), ..old(self)@ }),
    {
        self.init_segment = Some(data);
    }

    /// The cached init segment.
    pub fn init_segment(&self) -> (r: Option<&Vec<u8>>)
        ensures
            match r {
                Some(v) => self@.init_segment == Some(v@),
                None => self@.init_segment is None,
            },
    {
        match &self.init_segment {
            Some(v) => Some(v),
            None => None,
        }
    }

    /// Record a stored media segment (see [`spec_insert_segment`]).
    pub fn insert_segment(&mut self, info: SegmentInfo)
        requires
            old(self).wf(),
        ensures
            final(self).wf(),
            final(self)@ == (MonitorIndexView { segments: spec_insert_segment(old(self)@.segments, info), ..old(self)@ }),
    {
        let ghost s = self.segments@;
        let mut p: usize = 0;
        while p < self.segments.len() && self.segments[p].sequence < info.sequence
            invariant
                p <= self.segments.len(),
                self.segments@ == s,
                sorted_by_sequence(s),
                forall|j: int| 0 <= j < p ==> s[j].sequence < info.sequence,
            decreases self.segments.len() - p,
        {
            p = p + 1;
        }
        proof {
            lemma_count_before(s, info.sequence, p as int);
        }
        if p < self.segments.len() && self.segments[p].sequence == info.sequence {
            self.segments.set(p, info);
            proof {
                assert forall|i: int, j: int| 0 <= i < j < self.segments@.len()
                    implies self.segments@[i].sequence < self.segments@[j].sequence by {
                    assert(s[i].sequence < s[j].sequence);
                }
            }
        } else {
            self.segments.insert(p, info);
            proof {
                assert forall|i: int, j: int| 0 <= i < j < self.segments@.len()
                    implies self.segments@[i].sequence < self.segments@[j].sequence by {
                    if j < p {
                        assert(s[i].sequence < s[j].sequence);
                    } else if j == p {
                        assert(s[i].sequence < info.sequence);
                    } else if i < p {
                        assert(s[i].sequence < info.sequence);
                        assert(info.sequence <= s[p as int].sequence);
                        if j - 1 > p {
                            assert(s[p as int].sequence < s[j - 1].sequence);
                        }
                    } else if i == p {
                        assert(info.sequence <= s[p as int].sequence);
                        if j - 1 > p {
                            assert(s[p as int].sequence < s[j - 1].sequence);
                        }
                    } else {
                        assert(s[i - 1].sequence < s[j - 1].sequence);
                    }
                }
            }
        }
    }

    /// Record a stored partial segment; one of the same sequence and part
    /// is replaced.
    pub fn insert_partial(&mut self, sequence: u64, part_index: u32, info: SegmentInfo)
        requires
            old(self).wf(),
        ensures
            final(self).wf(),
            final(self)@.segments == old(self)@.segments,
            final(self)@.init_segment == old(self)@.init_segment,
            exists|i: int| 0 <= i < final(self)@.partials.len() && final(self)@.partials[i].sequence == sequence
                && final(self)@.partials[i].part_index == part_index && final(self)@.partials[i].info == info,
    {
        let mut i: usize = 0;
        while i < self.partials.len()
            invariant
                i <= self.partials.len(),
                sorted_by_sequence(self.segments@),
                self@.segments == old(self)@.segments,
                self@.init_segment == old(self)@.init_segment,
            decreases self.partials.len() - i,
        {
            if self.partials[i].sequence == sequence && self.partials[i].part_index == part_index {
                self.partials.set(i, PartialInfo { sequence, part_index, info });
                assert(self@.partials[i as int] == self.partials@[i as int]);
                return;
            }
            i = i + 1;
        }
        self.partials.push(PartialInfo { sequence, part_index, info });
        assert(self@.partials[self.partials@.len() - 1] == self.partials@[self.partials@.len() - 1]);
    }

    /// The stored segment of `sequence`.
    pub fn get(&self, sequence: u64) -> (r: Option<&SegmentInfo>)
        requires
            self.wf(),
        ensures
            match r {
                Some(x) => exists|i: int| 0 <= i < self@.segments.len() && self@.segments[i] == *x && x.sequence == sequence,
                None => !holds_sequence(self@.segments, sequence),
            },
    {
        let mut i: usize = 0;
        while i < self.segments.len()
            invariant
                i <= self.segments.len(),
                forall|j: int| 0 <= j < i ==> self.segments@[j].sequence != sequence,
            decreases self.segments.len() - i,
        {
            if self.segments[i].sequence == sequence {
                assert(self@.segments[i as int] == self.segments@[i as int]);
                return Some(&self.segments[i]);
            }
            i = i + 1;
        }
        None
    }

    /// All stored segments, ordered by sequence.
    pub fn list(&self) -> (r: &[SegmentInfo])
        requires
            self.wf(),
        ensures
            r@ == self@.segments,
            sorted_by_sequence(r@),
    {
        self.segments.as_slice()
    }

    /// The newest `count` segments (all of them when there are fewer),
    /// ordered by sequence.
    pub fn latest(&self, count: usize) -> (r: Vec<SegmentInfo>)
        requires
            self.wf(),
        ensures
            r@ == if self@.segments.len() > count {
                self@.segments.subrange(self@.segments.len() - count, self@.segments.len() as int)
            } else {
                self@.segments
            },
    {
        let n = self.segments.len();
        let start: usize = if n > count { n - count } else { 0 };
        let mut out: Vec<SegmentInfo> = Vec::new();
        let mut i: usize = start;
        while i < n
            invariant
                start <= i <= n,
                n == self.segments@.len(),
                out@ == self.segments@.subrange(start as int, i as int),
            decreases n - i,
        {
            let x = self.segments[i].duplicate();
            out.push(x);
            assert(out@ =~= self.segments@.subrange(start as int, i + 1));
            i = i + 1;
        }
        assert(self.segments@.subrange(0, n as int) =~= self.segments@);
        out
    }

    /// Remove the segments a cleanup at `now_us` selects (see
    /// [`cleanup_selects`]) and return them, in order, so that their files
    /// can be deleted. Expired partial segments are dropped as well.
    pub fn cleanup(&mut self, now_us: u64, retention_us: u64, max: usize) -> (removed: Vec<SegmentInfo>)
        requires
            old(self).wf(),
        ensures
            final(self).wf(),
            ({
                let (kept, gone) = cleanup_split(old(self)@.segments, old(self)@.segments.len(), now_us, retention_us, max);
                &&& final(self)@.segments == kept
                &&& removed@ == gone
            }),
            final(self)@.init_segment == old(self)@.init_segment,
            forall|i: int| 0 <= i < final(self)@.partials.len()
                ==> !expired(#[trigger] final(self)@.partials[i].info, now_us, retention_us),
            final(self)@.last_cleanup_us == now_us,
    {
        let ghost s = self.segments@;
        let n = self.segments.len();
        let mut kept: Vec<SegmentInfo> = Vec::new();
        let mut removed: Vec<SegmentInfo> = Vec::new();
        let mut i: usize = 0;
        while i < n
            invariant
                i <= n,
                n == s.len(),
                self.segments@ == s,
                sorted_by_sequence(s),
                (kept@, removed@) == cleanup_split(s, i as nat, now_us, retention_us, max),
            decreases n - i,
        {
            let x = self.segments[i].duplicate();
            let old_enough = now_us > x.created_at_us && now_us - x.created_at_us > retention_us;
            let excess = n > max && i < n - max;
            if old_enough || excess {
                removed.push(x);
            } else {
                kept.push(x);
            }
            i = i + 1;
        }
        proof {
            lemma_cleanup_split(s, n as nat, now_us, retention_us, max);
        }
        self.segments = kept;
        let mut parts: Vec<PartialInfo> = Vec::new();
        let mut j: usize = 0;
        while j < self.partials.len()
            invariant
                j <= self.partials.len(),
                forall|k: int| 0 <= k < parts@.len() ==> !expired(#[trigger] parts@[k].info, now_us, retention_us),
            decreases self.partials.len() - j,
        {
            let c = self.partials[j].info.created_at_us;
            if !(now_us > c && now_us - c > retention_us) {
                let p = PartialInfo {
                    sequence: self.partials[j].sequence,
                    part_index: self.partials[j].part_index,
                    info: self.partials[j].info.duplicate(),
                };
                parts.push(p);
            }
            j = j + 1;
        }
        self.partials = parts;
        self.last_cleanup_us = now_us;
        removed
    }

    /// Whether a cleanup is due at `now_us`.
    pub fn cleanup_due(&self, now_us: u64, interval_us: u64) -> (r: bool)
        ensures
            r == (now_us >= self@.last_cleanup_us && now_us - self@.last_cleanup_us >= interval_us),
    {
        now_us >= self.last_cleanup_us && now_us - self.last_cleanup_us >= interval_us
    }

    /// Forget every stored segment and the init segment.
    pub fn clear(&mut self)
        ensures
            final(self).wf(),
            final(self)@.init_segment is None,
            final(self)@.segments == Seq::<SegmentInfo>::empty(),
            final(self)@.partials == Seq::<PartialInfo>::empty(),
            final(self)@.last_cleanup_us == old(self)@.last_cleanup_us,
    {
        self.init_segment = None;
        self.segments = Vec::new();
        self.partials = Vec::new();
    }

    /// Statistics of the stored segments; sizes and durations are summed
    /// without exceeding the range of `u64`.
    pub fn stats(&self) -> (r: StorageStats)
        requires
            self.wf(),
        ensures
            r.segment_count == self@.segments.len(),
            r.partial_segment_count == self@.partials.len(),
            r.total_size == clamp_u64(total_size(self@.segments)),
            r.total_duration_us == clamp_u64(total_duration(self@.segments)),
            r.has_init_segment == self@.init_segment is Some,
            r.oldest_sequence == if self@.segments.len() == 0 { None::<u64> } else { Some(self@.segments[0].sequence) },
            r.newest_sequence == if self@.segments.len() == 0 { None::<u64> } else { Some(self@.segments.last().sequence) },
    {
        let n = self.segments.len();
        let mut size: u128 = 0;
        let mut dur: u128 = 0;
        let mut i: usize = 0;
        while i < n
            invariant
                i <= n,
                n == self.segments@.len(),
                size as int == total_size(self.segments@.take(i as int)),
                dur as int == total_duration(self.segments@.take(i as int)),
                size as int <= i * 0xffff_ffff_ffff_ffffint,
                dur as int <= i * 0xffff_ffff_ffff_ffffint,
                n <= usize::MAX,
            decreases n - i,
        {
            proof {
                assert(self.segments@.take(i as int + 1).drop_last() =~= self.segments@.take(i as int));
                assert((i as int) * 0xffff_ffff_ffff_ffffint <= 0xffff_ffff_ffff_ffffint * 0xffff_ffff_ffff_ffffint) by (nonlinear_arith)
                    requires i <= 0xffff_ffff_ffff_ffffint;
            }
            size = size + self.segments[i].size as u128;
            dur = dur + self.segments[i].duration_us as u128;
            i = i + 1;
        }
        assert(self.segments@.take(n as int) =~= self.segments@);
        let total_size: u64 = if size > 0xffff_ffff_ffff_ffffu128 { u64::MAX } else { size as u64 };
        let total_duration_us: u64 = if dur > 0xffff_ffff_ffff_ffffu128 { u64::MAX } else { dur as u64 };
        StorageStats {
            segment_count: n,
            partial_segment_count: self.partials.len(),
            total_size,
            total_duration_us,
            has_init_segment: self.init_segment.is_some(),
            oldest_sequence: if n == 0 { None } else { Some(self.segments[0].sequence) },
            newest_sequence: if n == 0 { None } else { Some(self.segments[n - 1].sequence) },
        }
    }
}

impl SegmentInfo {
    /// A copy of this record.
    pub fn duplicate(&self) -> (r: SegmentInfo)
        ensures
            r == *self,
    {
        SegmentInfo {
            sequence: self.sequence,
            path: self.path.clone(),
            size: self.size,
            duration_us: self.duration_us,
            created_at_us: self.created_at_us,
            is_partial: self.is_partial,
        }
    }
}

/// A cleanup leaves at most `max` segments, none of them expired, still
/// ordered; every removed segment was stored before.
pub proof fn lemma_cleanup_bounds(s: Seq<SegmentInfo>, now_us: u64, retention_us: u64, max: usize)
    requires
        sorted_by_sequence(s),
    ensures
        ({
            let (kept, gone) = cleanup_split(s, s.len(), now_us, retention_us, max);
            &&& kept.len() <= max
            &&& sorted_by_sequence(kept)
            &&& forall|j: int| 0 <= j < kept.len() ==> !expired(kept[j], now_us, retention_us)
            &&& forall|j: int| 0 <= j < gone.len() ==> holds_sequence(s, gone[j].sequence)
            &&& kept.len() + gone.len() == s.len()
        }),
{
    lemma_cleanup_split(s, s.len(), now_us, retention_us, max);
    let kept = cleanup_split(s, s.len(), now_us, retention_us, max).0;
    if s.len() <= max {
        assert(kept.len() <= s.len());
    }
}

/// Storing a segment makes it the one found under its sequence.
pub proof fn lemma_insert_then_find(s: Seq<SegmentInfo>, info: SegmentInfo)
    requires
        sorted_by_sequence(s),
    ensures
        holds_sequence(spec_insert_segment(s, info), info.sequence),
        exists|i: int| 0 <= i < spec_insert_segment(s, info).len() && spec_insert_segment(s, info)[i] == info,
{
    let p = count_before(s, info.sequence) as int;
    lemma_count_before_bound(s, info.sequence);
    let r = spec_insert_segment(s, info);
    assert(r[p] == info);
}

/// `count_before` is at most the length.
proof fn lemma_count_before_bound(s: Seq<SegmentInfo>, sequence: u64)
    ensures
        count_before(s, sequence) <= s.len(),
    decreases s.len(),
{
    if s.len() > 0 {
        lemma_count_before_bound(s.drop_last(), sequence);
    }
}

/// How many segments of an ordered list come before `sequence` is the
/// length of the prefix below it.
proof fn lemma_count_before(s: Seq<SegmentInfo>, sequence: u64, p: int)
    requires
        sorted_by_sequence(s),
        0 <= p <= s.len(),
        forall|j: int| 0 <= j < p ==> s[j].sequence < sequence,
        p < s.len() ==> s[p].sequence >= sequence,
    ensures
        count_before(s, sequence) == p,
    decreases s.len(),
{
    if s.len() > 0 {
        if p == s.len() {
            lemma_count_before(s.drop_last(), sequence, p - 1);
        } else {
            assert(s.last().sequence >= sequence) by {
                if p < s.len() - 1 {
                    assert(s[p].sequence < s[s.len() - 1].sequence);
                }
            }
            lemma_count_before(s.drop_last(), sequence, p);
        }
    }
}

} // verus!
