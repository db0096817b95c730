//! Adaptive bitrate: a moving average of the measured throughput and the
//! choice of a quality level from it.
use vstd::prelude::*;
use crate::media::Track;

verus! {

/// Bound on the throughputs and averages the estimator holds (bits/s).
pub open spec fn rate_bound() -> int {
    0x1_0000_0000_0000_0000_0000
}

/// The throughput of `bytes` downloaded in `elapsed_ms` (at least 1 ms is
/// counted), in bits per second.
pub open spec fn throughput(bytes: nat, elapsed_ms: nat) -> nat {
    (8000 * bytes) / (if elapsed_ms == 0 { 1 } else { elapsed_ms })
}

/// One step of the exponential moving average with smoothing `alpha`
/// thousandths; the first measurement is taken as it is.
pub open spec fn ema_step(average: Option<u128>, sample: nat, alpha: nat) -> nat {
    match average {
        None => sample,
        Some(a) => ((alpha * sample + (1000 - alpha) * (a as nat)) / 1000) as nat,
    }
}

/// The level chosen from `next` on: advance while the next track's
/// bandwidth does not exceed the average.
pub open spec fn level_from(tracks: Seq<Track>, average: int, next: int) -> int
    decreases tracks.len() - next,
{
    if next + 1 < tracks.len() && tracks[next + 1].bandwidth <= average {
        level_from(tracks, average, next + 1)
    } else {
        next
    }
}

/// The level chosen for an average bitrate: the first video level, raised
/// while the next level's bandwidth does not exceed the average.
pub open spec fn chosen_level(tracks: Seq<Track>, average: int) -> int {
    level_from(tracks, average, 1)
}

/// Estimator of the download throughput.
pub struct Ema {
    alpha: u64,
    average: Option<u128>,
    started_at: Option<u64>,
}

impl Ema {
    pub closed spec fn wf(&self) -> bool {
        &&& 0 < self.alpha <= 1000
        &&& self.average matches Some(a) ==> a < rate_bound()
    }

    pub closed spec fn alpha_spec(&self) -> nat {
        self.alpha as nat
    }

    /// The current average, `None` until a measurement was made.
    pub closed spec fn average_spec(&self) -> Option<u128> {
        self.average
    }

    /// When the download being timed started, if one is.
    pub closed spec fn started_spec(&self) -> Option<u64> {
        self.started_at
    }

    /// A cold estimator with smoothing `alpha` thousandths.
    pub fn new(alpha: u64) -> (r: Ema)
        requires
            0 < alpha <= 1000,
        ensures
            r.wf(),
            r.alpha_spec() == alpha,
            r.average_spec() is None,
            r.started_spec() is None,
    {
        Ema { alpha, average: None, started_at: None }
    }

    /// Records that a download starts at `now` (ms).
    pub fn start_timer(&mut self, now: u64)
        requires
            old(self).wf(),
        ensures
            final(self).wf(),
            final(self).alpha_spec() == old(self).alpha_spec(),
            final(self).average_spec() == old(self).average_spec(),
            final(self).started_spec() == Some(now),
    {
        self.started_at = Some(now);
    }

    /// The average bitrate, `None` while no measurement exists.
    pub fn average(&self) -> (r: Option<u128>)
        ensures
            r == self.average_spec(),
    {
        self.average
    }

    /// Records that the timed download ended at `now` with `bytes` bytes:
    /// the average moves toward the measured throughput. Without a timed
    /// download nothing changes.
    pub fn record(&mut self, bytes: u64, now: u64)
        requires
            old(self).wf(),
        ensures
            final(self).wf(),
            final(self).alpha_spec() == old(self).alpha_spec(),
            final(self).started_spec() is None,
            match old(self).started_spec() {
                Some(t) => final(self).average_spec() == Some(
                    ema_step(
                        old(self).average_spec(),
                        throughput(bytes as nat, if now > t { (now - t) as nat } else { 0 }),
                        old(self).alpha_spec(),
                    ) as u128,
                ),
                None => final(self).average_spec() == old(self).average_spec(),
            },
    {
        let start = match self.started_at {
            Some(t) => t,
            None => {
                return;
            },
        };
        self.started_at = None;
        let elapsed: u64 = if now > start {
            now - start
        } else {
            1
        };
        let bits: u128 = 8000u128 * (bytes as u128);
        let sample: u128 = bits / (elapsed as u128);
        assert(sample <= bits) by (nonlinear_arith)
            requires
                sample == bits / (elapsed as u128),
                elapsed >= 1,
        {
        }
        assert(bits < rate_bound());
        let alpha = self.alpha as u128;
        let next: u128 = match self.average {
            None => sample,
            Some(a) => {
                assert(alpha * sample + (1000 - alpha) * a < 1000 * rate_bound()) by (nonlinear_arith)
                    requires
                        sample < rate_bound(),
                        a < rate_bound(),
                        0 < alpha <= 1000,
                {
                }
                let n = (alpha * sample + (1000 - alpha) * a) / 1000;
                n
            },
        };
        self.average = Some(next);
    }
}

/// The quality level for an average bitrate: starting from level 1, the
/// next level is taken while its bandwidth does not exceed the average.
pub fn select_level(tracks: &Vec<Track>, average: u128) -> (r: usize)
    requires
        tracks@.len() >= 2,
    ensures
        r as int == chosen_level(tracks@, average as int),
        1 <= r < tracks@.len(),
{
    let mut next: usize = 1;
    while next < tracks.len() - 1 && (tracks[next + 1].bandwidth as u128) <= average
        invariant
            1 <= next < tracks@.len(),
            level_from(tracks@, average as int, 1) == level_from(tracks@, average as int, next as int),
        decreases tracks@.len() - next,
    {
        next = next + 1;
    }
    next
}

proof fn lemma_level_from_monotone(tracks: Seq<Track>, low: int, high: int, next: int)
    requires
        low <= high,
    ensures
        level_from(tracks, low, next) <= level_from(tracks, high, next),
        level_from(tracks, low, next) >= next,
    decreases tracks.len() - next,
{
    if next + 1 < tracks.len() && tracks[next + 1].bandwidth <= low {
        lemma_level_from_monotone(tracks, low, high, next + 1);
    } else if next + 1 < tracks.len() && tracks[next + 1].bandwidth <= high {
        lemma_level_from_monotone(tracks, high, high, next + 1);
    }
}

/// With the same tracks, a higher average bitrate never selects a lower
/// level.
pub proof fn lemma_level_monotone(tracks: Seq<Track>, low: int, high: int)
    requires
        low <= high,
    ensures
        chosen_level(tracks, low) <= chosen_level(tracks, high),
{
    lemma_level_from_monotone(tracks, low, high, 1);
}

} // verus!
