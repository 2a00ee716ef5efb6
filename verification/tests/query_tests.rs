use offline_cache::catalog::StorageMetadata;
use offline_cache::media::{MediaItem, StorageTrack};

fn named_track(kind: &str, name: &str, timestamp: i64) -> StorageTrack {
    StorageTrack {
        track_type: "single".to_string(),
        timestamp,
        media_item: MediaItem {
            item_type: Some(kind.to_string()),
            name: Some(name.to_string()),
            extra: String::new(),
        },
        bitrate: 128,
        container_id: None,
        media_sources: None,
    }
}

fn store_with_timestamps() -> StorageMetadata {
    let mut m = StorageMetadata::new();
    m.insert_track("t30".to_string(), named_track("Audio", "Thirty", 30));
    m.insert_track("t10".to_string(), named_track("Audio", "Ten", 10));
    m.insert_track("t20".to_string(), named_track("Audio", "Twenty", 20));
    m
}

#[test]
fn page_zero_returns_newest_two() {
    let m = store_with_timestamps();
    let page = m.get_page(&"Audio".to_string(), 0, 2, &vec![]);
    assert_eq!(page.len(), 2);
    assert_eq!(page[0].id, "t30");
    assert_eq!(page[1].id, "t20");
}

#[test]
fn page_one_returns_oldest() {
    let m = store_with_timestamps();
    let page = m.get_page(&"Audio".to_string(), 1, 2, &vec![]);
    assert_eq!(page.len(), 1);
    assert_eq!(page[0].id, "t10");
}

#[test]
fn page_out_of_range_is_empty() {
    let m = store_with_timestamps();
    let page = m.get_page(&"Audio".to_string(), 5, 2, &vec![]);
    assert!(page.is_empty());
}

#[test]
fn page_filters_by_kind() {
    let mut m = store_with_timestamps();
    m.insert_track("v".to_string(), named_track("Video", "Clip", 40));
    let page = m.get_page(&"Audio".to_string(), 0, 10, &vec![]);
    assert_eq!(page.len(), 3);
    let page = m.get_page(&"Video".to_string(), 0, 10, &vec![]);
    assert_eq!(page.len(), 1);
    assert_eq!(page[0].id, "v");
}

#[test]
fn page_carries_thumbnail_flag_and_sources() {
    let mut m = StorageMetadata::new();
    let mut t = named_track("Audio", "One", 5);
    t.media_sources = Some("[{\"Path\":\"x\"}]".to_string());
    m.insert_track("a".to_string(), t);
    m.insert_track("b".to_string(), named_track("Audio", "Two", 4));
    let thumbs = vec!["a".to_string()];
    let page = m.get_page(&"Audio".to_string(), 0, 10, &thumbs);
    assert_eq!(page.len(), 2);
    assert_eq!(page[0].id, "a");
    assert!(page[0].has_thumbnail);
    assert_eq!(page[0].media_sources.as_deref(), Some("[{\"Path\":\"x\"}]"));
    assert!(!page[1].has_thumbnail);
    assert!(page[1].media_sources.is_none());
}

#[test]
fn search_empty_term_returns_nothing() {
    let mut m = StorageMetadata::new();
    m.insert_track("a".to_string(), named_track("Audio", "Catalog", 1));
    let r = m.search_items(&"".to_string(), 10, &vec![]);
    assert!(r.is_empty());
}

#[test]
fn search_whitespace_term_returns_nothing() {
    let mut m = StorageMetadata::new();
    m.insert_track("a".to_string(), named_track("Audio", "Catalog", 1));
    let r = m.search_items(&"   \t".to_string(), 10, &vec![]);
    assert!(r.is_empty());
}

#[test]
fn search_is_case_insensitive_substring() {
    let mut m = StorageMetadata::new();
    m.insert_track("a".to_string(), named_track("Audio", "Catalog", 1));
    m.insert_track("b".to_string(), named_track("Audio", "Dog", 2));
    m.insert_track("c".to_string(), named_track("Audio", "scattered", 3));
    let r = m.search_items(&"cat".to_string(), 10, &vec![]);
    let names: Vec<&str> = r.iter().map(|d| d.item.name.as_deref().unwrap()).collect();
    assert_eq!(names, vec!["Catalog", "scattered"]);
}

#[test]
fn search_lowers_both_sides() {
    let mut m = StorageMetadata::new();
    m.insert_track("a".to_string(), named_track("Audio", "CATALOG", 1));
    let r = m.search_items(&"cAt".to_string(), 10, &vec![]);
    assert_eq!(r.len(), 1);
    assert_eq!(r[0].id, "a");
}

#[test]
fn search_respects_limit_in_scan_order() {
    let mut m = StorageMetadata::new();
    m.insert_track("a".to_string(), named_track("Audio", "cat one", 1));
    m.insert_track("b".to_string(), named_track("Audio", "cat two", 2));
    m.insert_track("c".to_string(), named_track("Audio", "cat three", 3));
    let r = m.search_items(&"cat".to_string(), 2, &vec![]);
    assert_eq!(r.len(), 2);
    assert_eq!(r[0].id, "a");
    assert_eq!(r[1].id, "b");
}

#[test]
fn search_skips_records_without_name() {
    let mut m = StorageMetadata::new();
    let mut t = named_track("Audio", "irrelevant", 1);
    t.media_item.name = None;
    m.insert_track("a".to_string(), t);
    let r = m.search_items(&"irrelevant".to_string(), 10, &vec![]);
    assert!(r.is_empty());
}

#[test]
fn page_with_unrepresentable_start_is_empty() {
    let m = store_with_timestamps();
    let page = m.get_page(&"Audio".to_string(), usize::MAX, 2, &vec![]);
    assert!(page.is_empty());
}
