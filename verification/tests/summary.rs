use ghost_time::summary::{copy_entries, SummaryCache, TimelineEntry};

fn entry(id: i64, title: &str) -> TimelineEntry {
    TimelineEntry::from_columns(
        id,
        1_710_000_000_000 + id,
        "Code.exe".to_string(),
        title.to_string(),
        5000,
        0,
        1,
        Some(3),
        Some("M-3".to_string()),
        None,
    )
}

#[test]
fn columns_map_flags() {
    let e = entry(1, "main.rs");
    assert!(!e.is_idle);
    assert!(e.is_approved);
    let e = TimelineEntry::from_columns(2, 0, String::new(), String::new(), 0, 1, 2, None, None, None);
    assert!(e.is_idle);
    assert!(!e.is_approved);
}

#[test]
fn cache_serves_fresh_entries() {
    let mut cache = SummaryCache::new();
    assert!(cache.fresh("2024-03-15", 0).is_none());
    cache.store("2024-03-15".to_string(), vec![entry(1, "a"), entry(2, "b")], 1_000);
    let got = cache.fresh("2024-03-15", 1_000 + 29_999_999_999).unwrap();
    assert_eq!(got.len(), 2);
    assert_eq!(got[1].window_title, "b");
    assert_eq!(got[0].matter_code.as_deref(), Some("M-3"));
    assert!(cache.fresh("2024-03-15", 1_000 + 30_000_000_000).is_none());
    assert!(cache.fresh("2024-03-16", 1_000).is_none());
}

#[test]
fn storing_again_replaces() {
    let mut cache = SummaryCache::new();
    cache.store("d1".to_string(), vec![entry(1, "a")], 0);
    cache.store("d2".to_string(), vec![entry(2, "b")], 0);
    cache.store("d1".to_string(), vec![entry(3, "c"), entry(4, "d")], 50_000_000_000);
    let got = cache.fresh("d1", 50_000_000_000).unwrap();
    assert_eq!(got.len(), 2);
    assert_eq!(got[0].id, 3);
    assert_eq!(cache.fresh("d2", 1).unwrap()[0].id, 2);
    assert!(cache.fresh("d2", 50_000_000_000).is_none());
}

#[test]
fn copies_are_equal() {
    let v = vec![entry(1, "x")];
    let c = copy_entries(&v);
    assert_eq!(c[0].window_title, "x");
    assert_eq!(c[0].id, 1);
    assert_eq!(c[0].client_name, None);
}
