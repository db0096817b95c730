//! Tracks and setup descriptors, buffered time ranges, the buffer manager's
//! decisions and the adaptive-bitrate estimator.
use vstd::prelude::*;
use vstd::string::*;
use crate::content_id::Cid;

verus! {

/// The name that marks the audio track.
pub open spec fn audio_name() -> Seq<char> {
    seq!['a', 'u', 'd', 'i', 'o']
}

/// Whether a track name marks the audio track.
pub fn is_audio_name(name: &String) -> (r: bool)
    ensures
        r == (name@ == audio_name()),
{
    let s = name.as_str();
    if s.unicode_len() != 5 {
        return false;
    }
    let r = s.get_char(0) == 'a' && s.get_char(1) == 'u' && s.get_char(2) == 'd'
        && s.get_char(3) == 'i' && s.get_char(4) == 'o';
    proof {
        if r {
            assert(name@ =~= audio_name());
        }
    }
    r
}

/// One track of a setup descriptor: the audio track (named "audio") or a
/// video quality. `bandwidth` is in bits per second.
#[derive(Debug)]
pub struct Track {
    pub name: String,
    pub codec: String,
    pub bandwidth: u64,
    pub initialization_segment: Cid,
}

/// The shape the engine needs of a setup descriptor: the audio track first,
/// then at least one video quality, and no other audio track.
pub open spec fn setup_shape(tracks: Seq<Track>) -> bool {
    &&& tracks.len() >= 2
    &&& tracks[0].name@ == audio_name()
    &&& forall|i: int| 1 <= i < tracks.len() ==> tracks[i].name@ != audio_name()
}

/// Checks [`setup_shape`].
pub fn has_setup_shape(tracks: &Vec<Track>) -> (r: bool)
    ensures
        r == setup_shape(tracks@),
{
    if tracks.len() < 2 || !is_audio_name(&tracks[0].name) {
        return false;
    }
    let mut i: usize = 1;
    while i < tracks.len()
        invariant
            1 <= i <= tracks@.len(),
            forall|j: int| 1 <= j < i ==> tracks@[j].name@ != audio_name(),
        decreases tracks@.len() - i,
    {
        if is_audio_name(&tracks[i].name) {
            return false;
        }
        i = i + 1;
    }
    true
}

/// The index of the first track, from `from` on, that is supported and is
/// (or, with `audio` false, is not) the audio track.
pub open spec fn first_supported(tracks: Seq<Track>, supported: Seq<bool>, audio: bool, from: int) -> Option<int>
    decreases tracks.len() - from,
{
    if from < 0 || from >= tracks.len() || from >= supported.len() {
        None
    } else if supported[from] && (tracks[from].name@ == audio_name()) == audio {
        Some(from)
    } else {
        first_supported(tracks, supported, audio, from + 1)
    }
}

/// What the search finds is a supported track of the kind sought.
pub proof fn lemma_first_supported(tracks: Seq<Track>, supported: Seq<bool>, audio: bool, from: int)
    ensures
        first_supported(tracks, supported, audio, from) matches Some(i) ==> from <= i < tracks.len()
            && i < supported.len() && supported[i] && (tracks[i].name@ == audio_name()) == audio,
    decreases tracks.len() - from,
{
    if 0 <= from < tracks.len() && from < supported.len() {
        lemma_first_supported(tracks, supported, audio, from + 1);
    }
}

/// The tracks that the two sinks are made for: the first supported audio
/// track and the first supported video track (`supported[i]` tells whether
/// the media layer can play `tracks[i]`). `None` where either is missing.
pub fn select_sinks(tracks: &Vec<Track>, supported: &Vec<bool>) -> (r: Option<(usize, usize)>)
    ensures
        match r {
            Some((a, v)) => first_supported(tracks@, supported@, true, 0) == Some(a as int)
                && first_supported(tracks@, supported@, false, 0) == Some(v as int),
            None => first_supported(tracks@, supported@, true, 0) is None
                || first_supported(tracks@, supported@, false, 0) is None,
        },
{
    let a = first_supported_from(tracks, supported, true);
    let v = first_supported_from(tracks, supported, false);
    match (a, v) {
        (Some(a), Some(v)) => Some((a, v)),
        _ => None,
    }
}

fn first_supported_from(tracks: &Vec<Track>, supported: &Vec<bool>, audio: bool) -> (r: Option<usize>)
    ensures
        match r {
            Some(i) => first_supported(tracks@, supported@, audio, 0) == Some(i as int),
            None => first_supported(tracks@, supported@, audio, 0) is None,
        },
{
    let mut i: usize = 0;
    while i < tracks.len() && i < supported.len()
        invariant
            i <= tracks@.len(),
            first_supported(tracks@, supported@, audio, 0)
                == first_supported(tracks@, supported@, audio, i as int),
        decreases tracks@.len() - i,
    {
        if supported[i] && is_audio_name(&tracks[i].name) == audio {
            return Some(i);
        }
        i = i + 1;
    }
    None
}

/// A buffered time range of a sink, in milliseconds.
#[derive(Clone, Copy, Debug, PartialEq, Eq, Structural)]
pub struct TimeRange {
    pub start: u64,
    pub end: u64,
}

/// Ranges as a sink reports them: each ordered, in increasing order, not
/// overlapping.
pub open spec fn ranges_ordered(r: Seq<TimeRange>) -> bool {
    &&& forall|i: int| 0 <= i < r.len() ==> r[i].start <= r[i].end
    &&& forall|i: int, j: int| 0 <= i < j < r.len() ==> r[i].end <= r[j].start
}

/// The start of the first range, or 0 where nothing is buffered.
pub open spec fn buffer_start(r: Seq<TimeRange>) -> int {
    if r.len() == 0 {
        0
    } else {
        r[0].start as int
    }
}

/// The end of the last range, or 0 where nothing is buffered.
pub open spec fn buffer_end(r: Seq<TimeRange>) -> int {
    if r.len() == 0 {
        0
    } else {
        r[r.len() - 1].end as int
    }
}

/// Computes [`buffer_start`].
pub fn first_start(r: &Vec<TimeRange>) -> (s: u64)
    ensures
        s == buffer_start(r@),
{
    if r.len() == 0 {
        0
    } else {
        r[0].start
    }
}

/// Computes [`buffer_end`].
pub fn last_end(r: &Vec<TimeRange>) -> (e: u64)
    ensures
        e == buffer_end(r@),
{
    if r.len() == 0 {
        0
    } else {
        r[r.len() - 1].end
    }
}

/// The engine's tunables.
#[derive(Clone, Copy, Debug, PartialEq, Eq, Structural)]
pub struct Config {
    /// Forward window: no load while more than this is buffered ahead (ms).
    pub forward_buffer_ms: u64,
    /// Back window: what is kept behind the playback position (ms).
    pub back_buffer_ms: u64,
    /// Period of the wake-up timer (ms).
    pub tick_ms: u64,
    /// Smoothing factor of the bitrate average, in thousandths (1 to 1000).
    pub smoothing_permille: u64,
}

impl Config {
    pub open spec fn wf(&self) -> bool {
        0 < self.smoothing_permille <= 1000
    }

    /// A forward window of 16 s, a back window of 8 s, a timer of 1 s and a
    /// smoothing factor of 0.3.
    pub fn standard() -> (r: Config)
        ensures
            r.wf(),
            r.forward_buffer_ms == 16000,
            r.back_buffer_ms == 8000,
            r.tick_ms == 1000,
            r.smoothing_permille == 300,
    {
        Config { forward_buffer_ms: 16000, back_buffer_ms: 8000, tick_ms: 1000, smoothing_permille: 300 }
    }
}

/// What the buffer manager decides on a status check.
#[derive(Clone, Copy, Debug, PartialEq, Eq, Structural)]
pub enum StatusDecision {
    Flush,
    EndOfVideo,
    Timeout,
    Load,
}

/// The status rules, in order: flush a back buffer longer than the back
/// window; end a video buffered up to its duration; wait while the forward
/// buffer exceeds the forward window; else load.
pub open spec fn status_of(r: Seq<TimeRange>, current: int, duration: Option<u64>, cfg: Config) -> StatusDecision {
    if current > buffer_start(r) + cfg.back_buffer_ms {
        StatusDecision::Flush
    } else if duration is Some && buffer_end(r) >= duration->0 {
        StatusDecision::EndOfVideo
    } else if duration is Some && current + cfg.forward_buffer_ms < buffer_end(r) {
        StatusDecision::Timeout
    } else {
        StatusDecision::Load
    }
}

/// Decides the next step from the video sink's buffered ranges, the
/// playback position and, for on-demand video, its duration (all in ms).
pub fn check_status(ranges: &Vec<TimeRange>, current: u64, duration: Option<u64>, cfg: Config) -> (r: StatusDecision)
    ensures
        r == status_of(ranges@, current as int, duration, cfg),
{
    let start = first_start(ranges);
    let end = last_end(ranges);
    if current > start && current - start > cfg.back_buffer_ms {
        return StatusDecision::Flush;
    }
    match duration {
        Some(d) => {
            if end >= d {
                StatusDecision::EndOfVideo
            } else if end > current && end - current > cfg.forward_buffer_ms {
                StatusDecision::Timeout
            } else {
                StatusDecision::Load
            }
        },
        None => StatusDecision::Load,
    }
}

/// The range that a flush removes: from the first buffered time to the
/// start of the back window where that is later, else everything buffered.
pub open spec fn flush_range_of(r: Seq<TimeRange>, current: int, cfg: Config) -> (int, int) {
    let back_start = current - cfg.back_buffer_ms;
    if buffer_start(r) < back_start {
        (buffer_start(r), back_start)
    } else {
        (buffer_start(r), buffer_end(r))
    }
}

/// Computes [`flush_range_of`].
pub fn flush_range(ranges: &Vec<TimeRange>, current: u64, cfg: Config) -> (r: (u64, u64))
    ensures
        (r.0 as int, r.1 as int) == flush_range_of(ranges@, current as int, cfg),
{
    let start = first_start(ranges);
    if current > cfg.back_buffer_ms && start < current - cfg.back_buffer_ms {
        (start, current - cfg.back_buffer_ms)
    } else {
        (start, last_end(ranges))
    }
}

/// After a status check that chose to flush, the flush removes every
/// buffered time that lies before the back window: what stays buffered
/// starts at the back window's start or later.
pub proof fn lemma_flush_clears_back_buffer(
    r: Seq<TimeRange>,
    current: int,
    duration: Option<u64>,
    cfg: Config,
    i: int,
    t: int,
)
    requires
        ranges_ordered(r),
        current >= 0,
        status_of(r, current, duration, cfg) == StatusDecision::Flush,
        0 <= i < r.len(),
        r[i].start <= t <= r[i].end,
        t < current - cfg.back_buffer_ms,
    ensures
        flush_range_of(r, current, cfg).0 <= t <= flush_range_of(r, current, cfg).1,
        flush_range_of(r, current, cfg).1 == current - cfg.back_buffer_ms,
{
    if i > 0 {
        assert(r[0].end <= r[i].start);
    }
}

} // verus!
