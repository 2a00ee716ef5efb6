use offline_cache::engine::{DownloadEngine, DownloadEvent, EngineStep};
use offline_cache::manager::DownloadManager;
use offline_cache::progress::ProgressTracker;
use offline_cache::StorageError;

#[test]
fn tracker_holds_report_until_interval_elapses() {
    let mut t = ProgressTracker::new(1000, 0);
    let r = t.on_chunk(100, 200);
    assert!(r.is_none());
    let r = t.on_chunk(100, 499);
    assert!(r.is_none());
}

#[test]
fn tracker_report_values_are_exact() {
    let mut t = ProgressTracker::new(1000, 0);
    let _ = t.on_chunk(100, 200);
    let r = t.on_chunk(100, 600).expect("interval elapsed");
    assert_eq!(r.downloaded, 200);
    assert_eq!(r.total, 1000);
    assert_eq!(r.progress, 20);
    // 200 bytes over 600 ms
    assert_eq!(r.speed_bytes_per_sec, 200 * 1000 / 600);
    // 800 bytes left at 333 bytes per second
    assert_eq!(r.remaining_ms, 800 * 1000 / 333);
}

#[test]
fn tracker_interval_restarts_after_report() {
    let mut t = ProgressTracker::new(0, 0);
    let r = t.on_chunk(50, 500).expect("interval elapsed");
    assert_eq!(r.progress, 0, "unknown total reports zero progress");
    assert_eq!(r.total, 0);
    let r = t.on_chunk(50, 900);
    assert!(r.is_none(), "only 400 ms since the last report");
    let r = t.on_chunk(50, 1000);
    assert!(r.is_some());
}

#[test]
fn tracker_zero_rate_means_zero_estimate() {
    let mut t = ProgressTracker::new(1_000_000, 0);
    // 0 bytes over 1000 ms: rate 0, estimate 0 rather than a division error
    let r = t.on_chunk(0, 1000).expect("interval elapsed");
    assert_eq!(r.speed_bytes_per_sec, 0);
    assert_eq!(r.remaining_ms, 0);
}

#[test]
fn engine_chunk_is_written() {
    let mut e = DownloadEngine::new(1000, 0);
    match e.on_event(DownloadEvent::Chunk { len: 10, now_ms: 100 }) {
        EngineStep::Write { report } => assert!(report.is_none()),
        _ => panic!("a chunk must be written"),
    }
}

#[test]
fn engine_finish_completes() {
    let mut e = DownloadEngine::new(0, 0);
    match e.on_event(DownloadEvent::Finished) {
        EngineStep::Complete => {},
        _ => panic!("end of stream must complete the transfer"),
    }
}

#[test]
fn engine_cancel_deletes_partial_and_surfaces_cancelled() {
    let mut e = DownloadEngine::new(1000, 0);
    let _ = e.on_event(DownloadEvent::Chunk { len: 10, now_ms: 100 });
    match e.on_event(DownloadEvent::Cancelled) {
        EngineStep::Abort { error, delete_partial } => {
            assert!(delete_partial, "the partial file must be deleted");
            assert_eq!(error, StorageError::Cancelled);
        },
        _ => panic!("cancellation must abort"),
    }
}

#[test]
fn engine_transport_error_deletes_partial_and_surfaces_words() {
    let mut e = DownloadEngine::new(1000, 0);
    match e.on_event(DownloadEvent::TransportFailed("connection reset".to_string())) {
        EngineStep::Abort { error, delete_partial } => {
            assert!(delete_partial, "a failed save must leave no partial file");
            assert_eq!(error, StorageError::TransportError("connection reset".to_string()));
        },
        _ => panic!("a transport failure must abort"),
    }
}

#[test]
fn manager_single_flight() {
    let mut m = DownloadManager::new();
    assert!(!m.is_active());
    let first = m.try_begin();
    assert!(first.is_ok());
    assert!(m.is_active());
    match m.try_begin() {
        Err(StorageError::AlreadyInProgress) => {},
        _ => panic!("a second begin while active must be refused"),
    }
    assert!(m.is_active());
}

#[test]
fn manager_finish_releases_slot() {
    let mut m = DownloadManager::new();
    let _ = m.try_begin().expect("idle manager accepts a begin");
    m.finish();
    assert!(!m.is_active());
    assert!(m.try_begin().is_ok());
}

#[test]
fn manager_cancel_signals_handle_and_releases() {
    let mut m = DownloadManager::new();
    let handle = m.try_begin().expect("idle manager accepts a begin");
    assert!(!handle.is_cancelled());
    let was_active = m.cancel();
    assert!(was_active);
    assert!(!m.is_active());
    assert!(handle.is_cancelled(), "the handed-out clone must observe the signal");
}

#[test]
fn manager_cancel_idle_is_noop() {
    let mut m = DownloadManager::new();
    assert!(!m.cancel());
    assert!(!m.is_active());
}

#[test]
fn error_messages_name_their_cause() {
    assert!(StorageError::AlreadyInProgress.message().contains("in progress"));
    assert!(StorageError::Cancelled.message().contains("cancelled"));
    assert!(StorageError::TransportError("boom".to_string()).message().contains("boom"));
    assert!(StorageError::CorruptMetadata("bad json".to_string()).message().contains("bad json"));
    assert!(StorageError::IOError("disk full".to_string()).message().contains("disk full"));
}
