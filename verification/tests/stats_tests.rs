use offline_cache::catalog::StorageMetadata;
use offline_cache::media::{MediaItem, StorageTrack};
use offline_cache::paths::{blob_file_name, metadata_file_name, thumb_file_name};
use offline_cache::stats::{compute_stats, sum_sizes};

fn plain_track() -> StorageTrack {
    StorageTrack {
        track_type: "single".to_string(),
        timestamp: 1,
        media_item: MediaItem {
            item_type: Some("Audio".to_string()),
            name: Some("One".to_string()),
            extra: String::new(),
        },
        bitrate: 128,
        container_id: None,
        media_sources: None,
    }
}

#[test]
fn stats_sum_blob_and_thumbnail() {
    let mut m = StorageMetadata::new();
    m.insert_track("a".to_string(), plain_track());
    // one 100-byte payload file and one 20-byte thumbnail on disk
    let sizes = vec![100u64, 20u64];
    let s = compute_stats(&sizes, &m);
    assert!(s.usage_bytes >= 120);
    assert_eq!(s.usage_bytes, 120);
    assert_eq!(s.track_count, 1);
}

#[test]
fn stats_after_clearing_are_zero() {
    let m = StorageMetadata::new();
    let s = compute_stats(&vec![], &m);
    assert_eq!(s.usage_bytes, 0);
    assert_eq!(s.track_count, 0);
}

#[test]
fn stats_count_orphaned_files() {
    // files on disk count even when no record names them
    let m = StorageMetadata::new();
    let s = compute_stats(&vec![7u64, 5u64], &m);
    assert_eq!(s.usage_bytes, 12);
    assert_eq!(s.track_count, 0);
}

#[test]
fn sum_sizes_of_empty_listing_is_zero() {
    assert_eq!(sum_sizes(&vec![]), 0);
}

#[test]
fn file_names_follow_the_identifier() {
    let id = "track-42".to_string();
    assert_eq!(blob_file_name(&id), "track-42.blob");
    assert_eq!(thumb_file_name(&id), "track-42.thumb");
    assert_eq!(metadata_file_name(), "metadata.json");
}
