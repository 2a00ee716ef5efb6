//! Progress accounting for a running download: cumulative bytes, and
//! rate-limited progress reports.
//!
//! A report is produced at most once per interval: only when at least
//! `EMIT_INTERVAL_MS` milliseconds have passed since the last report (or
//! since the start) does a chunk produce one.  The first report comes only
//! after the first interval has elapsed, and no trailing report is owed for
//! a final partial interval.  Rates are integer arithmetic: bytes per
//! second over the elapsed interval, and estimated milliseconds remaining
//! at that rate.

use vstd::prelude::*;

verus! {

/// Milliseconds that must pass between two progress reports.
pub const EMIT_INTERVAL_MS: u64 = 500;

/// One progress report.
pub struct ProgressReport {
    /// Bytes downloaded so far.
    pub downloaded: u64,
    /// Total expected bytes; 0 when the server did not report a length.
    pub total: u64,
    /// Completion in percent; 0 when the total is unknown.
    pub progress: u32,
    /// Transfer rate over the interval since the previous report.
    pub speed_bytes_per_sec: u64,
    /// Estimated milliseconds remaining at that rate; 0 when the rate is 0.
    pub remaining_ms: u64,
}

/// Completion in percent: downloaded over total, 0 when the total is
/// unknown, saturated at the widest percentage representable.
pub open spec fn spec_progress(downloaded: u64, total: u64) -> u32 {
    if total == 0 {
        0u32
    } else if downloaded * 100 / (total as int) > u32::MAX {
        u32::MAX
    } else {
        (downloaded * 100 / (total as int)) as u32
    }
}

/// Transfer rate in bytes per second over an elapsed interval, saturated.
pub open spec fn spec_rate(bytes: u64, elapsed_ms: u64) -> u64
    recommends
        elapsed_ms > 0,
{
    if bytes * 1000 / (elapsed_ms as int) > u64::MAX {
        u64::MAX
    } else {
        (bytes * 1000 / (elapsed_ms as int)) as u64
    }
}

/// Estimated milliseconds remaining: remaining bytes at the given rate,
/// 0 when the rate is 0, saturated.
pub open spec fn spec_remaining_ms(total: u64, downloaded: u64, rate: u64) -> u64 {
    if rate == 0 {
        0u64
    } else {
        let rem: int = if total > downloaded {
            total - downloaded
        } else {
            0
        };
        if rem * 1000 / (rate as int) > u64::MAX {
            u64::MAX
        } else {
            (rem * 1000 / (rate as int)) as u64
        }
    }
}

/// The byte and timing account of one running download.
pub struct ProgressTracker {
    total: u64,
    downloaded: u64,
    last_emit_ms: u64,
    last_emit_downloaded: u64,
}

impl ProgressTracker {
    /// Total expected bytes; 0 when unknown.
    pub closed spec fn total(self) -> u64 {
        self.total
    }

    /// Bytes downloaded so far.
    pub closed spec fn downloaded(self) -> u64 {
        self.downloaded
    }

    /// When the last report was produced (or the download started).
    pub closed spec fn last_emit_ms(self) -> u64 {
        self.last_emit_ms
    }

    /// How many bytes had been downloaded at the last report.
    pub closed spec fn last_emit_downloaded(self) -> u64 {
        self.last_emit_downloaded
    }

    /// The byte account never runs backwards.
    pub open spec fn wf(self) -> bool {
        self.downloaded() >= self.last_emit_downloaded()
    }

    /// A fresh account for a download starting now.
    pub fn new(total: u64, now_ms: u64) -> (r: ProgressTracker)
        ensures
            r.total() == total,
            r.downloaded() == 0,
            r.last_emit_ms() == now_ms,
            r.last_emit_downloaded() == 0,
            r.wf(),
    {
        ProgressTracker { total, downloaded: 0, last_emit_ms: now_ms, last_emit_downloaded: 0 }
    }

    /// Accounts one received chunk.  A report is produced exactly when the
    /// emission interval has elapsed since the last report; it then carries
    /// the completion percentage, the rate over the elapsed interval, and
    /// the estimate of the time remaining at that rate.
    pub fn on_chunk(&mut self, len: u64, now_ms: u64) -> (r: Option<ProgressReport>)
        requires
            old(self).wf(),
            old(self).downloaded() + len <= u64::MAX,
            now_ms >= old(self).last_emit_ms(),
        ensures
            final(self).wf(),
            final(self).total() == old(self).total(),
            final(self).downloaded() == old(self).downloaded() + len,
            r is Some <==> now_ms - old(self).last_emit_ms() >= EMIT_INTERVAL_MS,
            r is None ==> final(self).last_emit_ms() == old(self).last_emit_ms(),
            r is None ==> final(self).last_emit_downloaded() == old(self).last_emit_downloaded(),
            r matches Some(p) ==> {
                &&& final(self).last_emit_ms() == now_ms
                &&& final(self).last_emit_downloaded() == final(self).downloaded()
                &&& p.downloaded == final(self).downloaded()
                &&& p.total == old(self).total()
                &&& p.progress == spec_progress(final(self).downloaded(), old(self).total())
                &&& p.speed_bytes_per_sec == spec_rate(
                    (old(self).downloaded() + len - old(self).last_emit_downloaded()) as u64,
                    (now_ms - old(self).last_emit_ms()) as u64,
                )
                &&& p.remaining_ms == spec_remaining_ms(
                    old(self).total(),
                    final(self).downloaded(),
                    p.speed_bytes_per_sec,
                )
            },
    {
        self.downloaded = self.downloaded + len;
        let elapsed = now_ms - self.last_emit_ms;
        if elapsed >= EMIT_INTERVAL_MS {
            let progress: u32 = if self.total == 0 {
                0
            } else {
                let q: u128 = (self.downloaded as u128) * 100 / (self.total as u128);
                if q > u32::MAX as u128 {
                    u32::MAX
                } else {
                    q as u32
                }
            };
            let bytes_since_last = self.downloaded - self.last_emit_downloaded;
            let sq: u128 = (bytes_since_last as u128) * 1000 / (elapsed as u128);
            let speed: u64 = if sq > u64::MAX as u128 {
                u64::MAX
            } else {
                sq as u64
            };
            let remaining_bytes = if self.total > self.downloaded {
                self.total - self.downloaded
            } else {
                0
            };
            let remaining_ms: u64 = if speed == 0 {
                0
            } else {
                let rq: u128 = (remaining_bytes as u128) * 1000 / (speed as u128);
                if rq > u64::MAX as u128 {
                    u64::MAX
                } else {
                    rq as u64
                }
            };
            self.last_emit_ms = now_ms;
            self.last_emit_downloaded = self.downloaded;
            Some(
                ProgressReport {
                    downloaded: self.downloaded,
                    total: self.total,
                    progress,
                    speed_bytes_per_sec: speed,
                    remaining_ms,
                },
            )
        } else {
            None
        }
    }
}

} // verus!
