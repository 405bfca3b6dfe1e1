use garbg::cache::disk::{CacheIndex, DiskCache};
use garbg::state::Timestamp;
use garbg::cache::memory::{CachedFrame, FrameCache, FrameKey};
use garbg::media::pixels::RgbaImage;

fn key(uri: &str, i: usize) -> FrameKey {
    FrameKey { uri: uri.to_string(), frame_index: i, width: 1, height: 1 }
}

fn frame(size: usize) -> CachedFrame {
    CachedFrame { image: RgbaImage::new(1, 1), size }
}

#[test]
fn store_names_file_by_hash() {
    let mut cache = DiskCache::new("/tmp/garbg-cache".to_string(), 1, CacheIndex::empty());
    let out = cache.store("https://example.com/a.png", 100, Some("etag-1".to_string()));
    assert_eq!(out.file_path.len(), 2 + 1 + 64);
    assert_eq!(out.subdir.len(), 2);
    assert!(out.file_path.starts_with(&format!("{}/", out.subdir)));
    assert!(out.file_path[3..].starts_with(&out.subdir));
    assert!(out.file_path[3..].chars().all(|c| c.is_ascii_hexdigit() && !c.is_ascii_uppercase()));
    assert!(out.evicted.is_empty());
    assert!(cache.is_cached("https://example.com/a.png", true));
    assert!(!cache.is_cached("https://example.com/a.png", false));
    assert!(!cache.is_cached("https://example.com/b.png", true));
    assert_eq!(out.full_path, format!("/tmp/garbg-cache/{}", out.file_path));
    assert_eq!(cache.cached_file("https://example.com/a.png"), Some(out.full_path.clone()));
    assert_eq!(cache.get("https://example.com/a.png", false), None);
    assert_eq!(cache.get("https://example.com/a.png", true), Some(out.full_path.clone()));
    assert_eq!(cache.get("https://example.com/other.png", true), None);
    assert_eq!(cache.index.total_size, 100);
    assert!(cache.index.is_consistent());
}

#[test]
fn store_replaces_and_evicts_oldest() {
    let mut cache = DiskCache::new("/tmp/garbg-cache".to_string(), 1, CacheIndex::empty());
    let a = cache.store("a", 600_000, None);
    let again = cache.store("a", 500_000, None);
    assert_eq!(a.file_path, again.file_path);
    assert_eq!(cache.index.entries.len(), 1);
    assert_eq!(cache.index.total_size, 500_000);
    let b = cache.store("b", 600_000, None);
    assert_eq!(b.evicted, vec![a.file_path.clone()]);
    assert!(!cache.is_cached("a", true));
    assert!(cache.is_cached("b", true));
    assert!(!cache.is_cached("b", false));
    assert_eq!(cache.index.total_size, 600_000);
    let files = cache.clear();
    assert_eq!(files, vec![b.file_path]);
    assert_eq!(cache.index.total_size, 0);
    assert!(!cache.is_cached("b", true));
}

#[test]
fn cache_paths_join_like_paths() {
    let mut c = DiskCache::new("/tmp/garbg-cache/".to_string(), 1, CacheIndex::empty());
    let out = c.store("x", 1, None);
    assert_eq!(out.full_path, format!("/tmp/garbg-cache/{}", out.file_path));
    let mut e = DiskCache::new(String::new(), 1, CacheIndex::empty());
    let out = e.store("x", 1, None);
    assert_eq!(out.full_path, out.file_path);
}

#[test]
fn oversized_file_is_evicted_at_once() {
    let mut cache = DiskCache::new("/tmp/garbg-cache".to_string(), 0, CacheIndex::empty());
    let out = cache.store("big", 10, None);
    assert_eq!(out.evicted, vec![out.file_path.clone()]);
    assert!(cache.index.entries.is_empty());
}

#[test]
fn inconsistent_index_detected() {
    let mut cache = DiskCache::new("/tmp/garbg-cache".to_string(), 1, CacheIndex::empty());
    cache.store("a", 5, None);
    let mut idx = CacheIndex { entries: vec![cache.index.entries[0].clone_entry()], total_size: 6 };
    assert!(!idx.is_consistent());
    idx.total_size = 5;
    assert!(idx.is_consistent());
    idx.entries.push(cache.index.entries[0].clone_entry());
    idx.total_size = 10;
    assert!(!idx.is_consistent());
}

#[test]
fn frame_cache_put_then_get() {
    let mut fc = FrameCache::new(1);
    fc.put(key("a", 0), frame(600_000));
    assert_eq!(fc.memory_usage(), 600_000);
    assert_eq!(fc.get(&key("a", 0)).map(|f| f.size), Some(600_000));
    fc.put(key("b", 0), frame(600_000));
    assert!(fc.get(&key("a", 0)).is_none());
    assert_eq!(fc.get(&key("b", 0)).map(|f| f.size), Some(600_000));
    assert_eq!(fc.memory_usage(), 600_000);
    fc.put(key("b", 0), frame(100));
    assert_eq!(fc.memory_usage(), 100);
    fc.put(key("b", 1), frame(200));
    assert_eq!(fc.memory_usage(), 300);
    fc.clear();
    assert_eq!(fc.memory_usage(), 0);
    assert!(fc.get(&key("b", 1)).is_none());
}

#[test]
fn frame_cache_keeps_oversized_frame_alone() {
    let mut fc = FrameCache::new(0);
    fc.put(key("a", 0), frame(10));
    fc.put(key("b", 0), frame(20));
    assert!(fc.get(&key("a", 0)).is_none());
    assert_eq!(fc.memory_usage(), 20);
}

fn at(secs: i64) -> Timestamp {
    Timestamp { secs, nanos: 0 }
}

#[test]
fn stored_file_is_found_again() {
    let mut cache = DiskCache::new("/var/cache/garbg".to_string(), 1, CacheIndex::empty());
    let first = cache.store_at("https://example.com/one.png", 300_000, None, at(10));
    let out = cache.store_at("https://example.com/two.png", 900_000, Some("e2".to_string()), at(20));
    assert_eq!(out.evicted, vec![first.file_path.clone()]);
    assert_eq!(cache.cached_file("https://example.com/two.png"), Some(out.full_path.clone()));
    assert_eq!(cache.get_at("https://example.com/two.png", at(30)), Some(out.full_path.clone()));
    assert_eq!(cache.cached_file("https://example.com/one.png"), None);
}

#[test]
fn eviction_takes_least_recently_used() {
    let mut cache = DiskCache::new("/var/cache/garbg".to_string(), 1, CacheIndex::empty());
    let a = cache.store_at("a", 400_000, None, at(1));
    let b = cache.store_at("b", 400_000, None, at(2));
    assert!(cache.get_at("a", at(3)).is_some());
    let c = cache.store_at("c", 400_000, None, at(4));
    assert_eq!(c.evicted, vec![b.file_path.clone()]);
    assert!(cache.is_cached("a", true));
    assert!(!cache.is_cached("b", true));
    assert!(cache.is_cached("c", true));
    assert_eq!(cache.index.total_size, 800_000);
    assert_ne!(a.file_path, c.file_path);
}
