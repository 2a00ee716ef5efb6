use offline_cache::catalog::StorageMetadata;
use offline_cache::media::{MediaItem, StorageTrack};

fn item(kind: &str, name: Option<&str>) -> MediaItem {
    MediaItem {
        item_type: Some(kind.to_string()),
        name: name.map(|n| n.to_string()),
        extra: String::new(),
    }
}

fn track(kind: &str, name: Option<&str>, timestamp: i64, container_id: Option<&str>) -> StorageTrack {
    StorageTrack {
        track_type: if kind == "container" { "container".to_string() } else { "single".to_string() },
        timestamp,
        media_item: item(kind, name),
        bitrate: 128,
        container_id: container_id.map(|c| c.to_string()),
        media_sources: None,
    }
}

#[test]
fn empty_catalog_has_nothing() {
    let m = StorageMetadata::new();
    assert_eq!(m.track_count(), 0);
    assert!(!m.has_track(&"a".to_string()));
    assert!(m.get_track(&"a".to_string()).is_none());
}

#[test]
fn insert_then_get() {
    let mut m = StorageMetadata::new();
    m.insert_track("a".to_string(), track("Audio", Some("One"), 10, None));
    assert!(m.has_track(&"a".to_string()));
    let got = m.get_track(&"a".to_string()).expect("stored record");
    assert_eq!(got.timestamp, 10);
    assert_eq!(got.media_item.name.as_deref(), Some("One"));
    assert_eq!(m.track_count(), 1);
}

#[test]
fn resave_overwrites_not_duplicates() {
    let mut m = StorageMetadata::new();
    m.insert_track("a".to_string(), track("Audio", Some("Old"), 10, None));
    m.insert_track("a".to_string(), track("Audio", Some("New"), 99, None));
    assert_eq!(m.track_count(), 1);
    let got = m.get_track(&"a".to_string()).expect("stored record");
    assert_eq!(got.timestamp, 99);
    assert_eq!(got.media_item.name.as_deref(), Some("New"));
    assert_eq!(m.count_by_type(&"Audio".to_string()), 1);
}

#[test]
fn resave_reflected_in_page() {
    let mut m = StorageMetadata::new();
    m.insert_track("a".to_string(), track("Audio", Some("Old"), 10, None));
    m.insert_track("a".to_string(), track("Audio", Some("New"), 99, None));
    let page = m.get_page(&"Audio".to_string(), 0, 10, &vec![]);
    assert_eq!(page.len(), 1);
    assert_eq!(page[0].item.name.as_deref(), Some("New"));
}

#[test]
fn count_by_type_counts_exact_matches() {
    let mut m = StorageMetadata::new();
    m.insert_track("a".to_string(), track("Audio", None, 1, None));
    m.insert_track("b".to_string(), track("Audio", None, 2, None));
    m.insert_track("v".to_string(), track("Video", None, 3, None));
    let mut no_type = track("Audio", None, 4, None);
    no_type.media_item.item_type = None;
    m.insert_track("n".to_string(), no_type);
    assert_eq!(m.count_by_type(&"Audio".to_string()), 2);
    assert_eq!(m.count_by_type(&"Video".to_string()), 1);
    assert_eq!(m.count_by_type(&"audio".to_string()), 0);
}

#[test]
fn remove_container_cascades_to_children() {
    let mut m = StorageMetadata::new();
    m.insert_track("c".to_string(), track("container", Some("Box"), 1, None));
    m.insert_track("a".to_string(), track("Audio", Some("A"), 2, Some("c")));
    m.insert_track("b".to_string(), track("Audio", Some("B"), 3, Some("c")));
    m.insert_track("d".to_string(), track("Audio", Some("D"), 4, None));
    let removed = m.remove_track(&"c".to_string());
    let removed: Vec<String> = removed;
    assert_eq!(removed.len(), 3);
    assert!(removed.contains(&"c".to_string()));
    assert!(removed.contains(&"a".to_string()));
    assert!(removed.contains(&"b".to_string()));
    assert!(!m.has_track(&"c".to_string()));
    assert!(!m.has_track(&"a".to_string()));
    assert!(!m.has_track(&"b".to_string()));
    assert!(m.has_track(&"d".to_string()));
    assert_eq!(m.track_count(), 1);
}

#[test]
fn remove_child_alone_removes_only_it() {
    let mut m = StorageMetadata::new();
    m.insert_track("c".to_string(), track("container", Some("Box"), 1, None));
    m.insert_track("a".to_string(), track("Audio", Some("A"), 2, Some("c")));
    m.insert_track("b".to_string(), track("Audio", Some("B"), 3, Some("c")));
    let removed = m.remove_track(&"a".to_string());
    assert_eq!(removed, vec!["a".to_string()]);
    assert!(!m.has_track(&"a".to_string()));
    assert!(m.has_track(&"c".to_string()));
    assert!(m.has_track(&"b".to_string()));
}

#[test]
fn remove_non_container_with_same_parent_value_no_cascade() {
    let mut m = StorageMetadata::new();
    m.insert_track("x".to_string(), track("Audio", Some("X"), 1, None));
    m.insert_track("y".to_string(), track("Audio", Some("Y"), 2, Some("x")));
    let removed = m.remove_track(&"x".to_string());
    assert_eq!(removed, vec!["x".to_string()]);
    assert!(m.has_track(&"y".to_string()));
}

#[test]
fn remove_absent_id_is_noop() {
    let mut m = StorageMetadata::new();
    m.insert_track("a".to_string(), track("Audio", None, 1, None));
    let removed = m.remove_track(&"zzz".to_string());
    assert!(removed.is_empty());
    assert_eq!(m.track_count(), 1);
}
