use dgx_pixels_tui::preview_cache::{PreviewCache, SixelPreviewCache};
use dgx_pixels_tui::sixel::{CacheStats, PreviewEntry};

fn entry(path: &str, data: &str, size: usize, access: u64) -> PreviewEntry {
    PreviewEntry {
        path: path.to_string(),
        sixel_data: data.to_string(),
        size_bytes: size,
        last_access: access,
        dimensions: (64, 64),
    }
}

#[test]
fn preview_test_cache_creation() {
    let cache = SixelPreviewCache::new();
    let stats = cache.stats();
    assert_eq!(stats.entries, 0);
    assert_eq!(stats.size_bytes, 0);
}

#[test]
fn preview_test_cache_insert_and_get() {
    let mut cache = SixelPreviewCache::new();
    cache.insert(entry("/test/image.png", "test_sixel_data", 100, 1));
    let got = cache.get("/test/image.png", 5).unwrap();
    assert_eq!(got.sixel_data, "test_sixel_data");
    assert_eq!(got.size_bytes, 100);
    assert_eq!(got.dimensions, (64, 64));
    assert_eq!(got.last_access, 5);
    let stats = cache.stats();
    assert_eq!(stats.entries, 1);
    assert_eq!(stats.size_bytes, 100);
}

#[test]
fn test_cache_contains() {
    let mut cache = SixelPreviewCache::new();
    assert!(!cache.contains("/test/image.png"));
    cache.insert(entry("/test/image.png", "data", 10, 0));
    assert!(cache.contains("/test/image.png"));
}

#[test]
fn preview_test_cache_stats() {
    let mut cache = SixelPreviewCache::new();
    cache.insert(entry("/test.png", "x", 1024, 0));
    let stats = cache.stats();
    assert_eq!(stats.entries, 1);
    assert_eq!(stats.size_bytes, 1024);
    assert_eq!(stats.max_size_bytes, 50 * 1024 * 1024);
}

#[test]
fn test_cache_clear() {
    let mut cache = SixelPreviewCache::new();
    cache.insert(entry("/test.png", "data", 100, 0));
    cache.clear();
    assert!(!cache.contains("/test.png"));
    assert_eq!(cache.stats(), CacheStats { entries: 0, size_bytes: 0, max_size_bytes: 50 * 1024 * 1024 });
}

#[test]
fn least_recently_used_entries_leave_first() {
    let mut cache = PreviewCache::with_max_size(100);
    cache.insert(entry("a", "", 40, 3));
    cache.insert(entry("b", "", 40, 1));
    cache.insert(entry("c", "", 40, 2));
    // 120 bytes would exceed 100: "b" (oldest) was dropped before "c" went in
    assert!(cache.contains("a"));
    assert!(!cache.contains("b"));
    assert!(cache.contains("c"));
    assert_eq!(cache.stats().size_bytes, 80);
}

#[test]
fn touch_and_get_mark_the_stored_entry() {
    let mut cache = PreviewCache::with_max_size(100);
    cache.insert(entry("a", "", 50, 1));
    cache.insert(entry("b", "", 50, 2));
    assert!(cache.touch("b", 9));
    assert!(!cache.touch("zzz", 9));
    // reading "a" marks it as used, so "b" is now the least recently used
    assert_eq!(cache.get("a", 10).unwrap().last_access, 10);
    cache.insert(entry("c", "", 1, 11));
    assert!(cache.contains("a"));
    assert!(!cache.contains("b"));
    assert!(cache.contains("c"));
}

#[test]
fn reinserting_a_path_counts_its_size_once() {
    let mut cache = SixelPreviewCache::new();
    cache.insert(entry("/a.png", "data", 100, 1));
    cache.insert(entry("/a.png", "data", 100, 2));
    let stats = cache.stats();
    assert_eq!(stats.entries, 1);
    assert_eq!(stats.size_bytes, 100);
    cache.insert(entry("/a.png", "other", 30, 3));
    assert_eq!(cache.stats().size_bytes, 30);
}

#[test]
fn an_entry_larger_than_the_cache_empties_it() {
    let mut cache = PreviewCache::with_max_size(10);
    cache.insert(entry("a", "", 5, 1));
    cache.insert(entry("b", "", 30, 2));
    assert!(!cache.contains("a"));
    assert!(cache.contains("b"));
    assert_eq!(cache.stats().size_bytes, 30);
}
