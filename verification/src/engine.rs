//! The download engine's decision core: what to do with each event of a
//! running transfer.
//!
//! The surrounding application runs the transfer itself — it awaits the
//! next chunk or a cancellation signal, whichever resolves first — and
//! hands each outcome to [`DownloadEngine::on_event`], which decides: write
//! the chunk (and perhaps report progress), finish, or abort.  A failed
//! transfer leaves no partial destination file: a cancellation aborts with
//! the cancellation error and a transport failure with the transport's
//! words, and either abort orders the partial file deleted; the transfer is
//! never retried.

use vstd::prelude::*;

use crate::progress::{
    spec_progress, spec_rate, spec_remaining_ms, ProgressReport, ProgressTracker,
    EMIT_INTERVAL_MS,
};
use crate::StorageError;

verus! {

/// One outcome of awaiting the transfer: a chunk arrived, the stream
/// failed, the stream ended, or cancellation won the race.
pub enum DownloadEvent {
    /// A chunk of the given length arrived at the given clock reading.
    Chunk { len: u64, now_ms: u64 },
    /// Reading the next chunk failed; the payload carries the transport's words.
    TransportFailed(String),
    /// The stream ended: the transfer is complete.
    Finished,
    /// Cancellation was requested and observed before the next chunk.
    Cancelled,
}

/// What the application must do next with the transfer.
pub enum EngineStep {
    /// Write the chunk to the destination; deliver the report, if any.
    Write { report: Option<ProgressReport> },
    /// Flush and close the destination: the transfer succeeded.
    Complete,
    /// Abort: delete the partial destination file exactly when
    /// `delete_partial` holds, then surface `error`.
    Abort { error: StorageError, delete_partial: bool },
}

/// The state of one transfer: its byte account, and whether it has ended.
pub struct DownloadEngine {
    tracker: ProgressTracker,
    finished: bool,
}

impl DownloadEngine {
    /// The transfer's byte and timing account.
    pub closed spec fn tracker(self) -> ProgressTracker {
        self.tracker
    }

    /// Whether the transfer has ended, by success, failure or cancellation.
    pub closed spec fn finished(self) -> bool {
        self.finished
    }

    /// A transfer that is about to stream `total` expected bytes
    /// (0 when unknown), starting at the given clock reading.
    pub fn new(total: u64, now_ms: u64) -> (r: DownloadEngine)
        ensures
            !r.finished(),
            r.tracker().total() == total,
            r.tracker().downloaded() == 0,
            r.tracker().last_emit_ms() == now_ms,
            r.tracker().last_emit_downloaded() == 0,
            r.tracker().wf(),
    {
        DownloadEngine { tracker: ProgressTracker::new(total, now_ms), finished: false }
    }

    /// Decides what one event of the running transfer means.
    ///
    /// A chunk is written, and reported exactly when the emission interval
    /// has elapsed; the end of the stream completes the transfer; a
    /// transport failure aborts with the transport's words, a cancellation
    /// with the cancellation error, distinct from it, and either abort
    /// orders the partial destination file deleted: a failed transfer
    /// leaves no partial file.
    pub fn on_event(&mut self, event: DownloadEvent) -> (r: EngineStep)
        requires
            !old(self).finished(),
            old(self).tracker().wf(),
            event matches DownloadEvent::Chunk { len, now_ms } ==> old(self).tracker().downloaded()
                + len <= u64::MAX && now_ms >= old(self).tracker().last_emit_ms(),
        ensures
            final(self).tracker().wf(),
            event matches DownloadEvent::Chunk { len, now_ms } ==> {
                &&& !final(self).finished()
                &&& final(self).tracker().downloaded() == old(self).tracker().downloaded() + len
                &&& final(self).tracker().total() == old(self).tracker().total()
                &&& (r matches EngineStep::Write { report } && (match report {
                    Some(p) => {
                        &&& now_ms - old(self).tracker().last_emit_ms() >= EMIT_INTERVAL_MS
                        &&& final(self).tracker().last_emit_ms() == now_ms
                        &&& final(self).tracker().last_emit_downloaded()
                            == final(self).tracker().downloaded()
                        &&& p.downloaded == old(self).tracker().downloaded() + len
                        &&& p.total == old(self).tracker().total()
                        &&& p.progress == spec_progress(p.downloaded, p.total)
                        &&& p.speed_bytes_per_sec == spec_rate(
                            (old(self).tracker().downloaded() + len
                                - old(self).tracker().last_emit_downloaded()) as u64,
                            (now_ms - old(self).tracker().last_emit_ms()) as u64,
                        )
                        &&& p.remaining_ms == spec_remaining_ms(
                            p.total,
                            p.downloaded,
                            p.speed_bytes_per_sec,
                        )
                    },
                    None => {
                        &&& now_ms - old(self).tracker().last_emit_ms() < EMIT_INTERVAL_MS
                        &&& final(self).tracker().last_emit_ms()
                            == old(self).tracker().last_emit_ms()
                        &&& final(self).tracker().last_emit_downloaded()
                            == old(self).tracker().last_emit_downloaded()
                    },
                }))
            },
            event is Finished ==> r is Complete && final(self).finished(),
            event matches DownloadEvent::TransportFailed(w) ==> final(self).finished() && (
            r matches EngineStep::Abort { error, delete_partial } && (error matches
            StorageError::TransportError(w2) && w2@ == w@) && delete_partial == true),
            event is Cancelled ==> final(self).finished() && (r matches EngineStep::Abort {
                error,
                delete_partial,
            } && error is Cancelled && delete_partial == true),
    {
        match event {
            DownloadEvent::Chunk { len, now_ms } => {
                let report = self.tracker.on_chunk(len, now_ms);
                EngineStep::Write { report }
            },
            DownloadEvent::Finished => {
                self.finished = true;
                EngineStep::Complete
            },
            DownloadEvent::TransportFailed(w) => {
                self.finished = true;
                EngineStep::Abort { error: StorageError::TransportError(w), delete_partial: true }
            },
            DownloadEvent::Cancelled => {
                self.finished = true;
                EngineStep::Abort { error: StorageError::Cancelled, delete_partial: true }
            },
        }
    }
}

} // verus!
