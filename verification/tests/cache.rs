use portable_fs::Cache;
use portable_fs::CacheStats;
use portable_fs::FileStat;
use portable_fs::PortablePath;

fn key(name: &str) -> PortablePath {
    PortablePath::try_from([name].as_slice()).unwrap()
}

fn stat(size: u64) -> FileStat {
    FileStat {
        size,
        mtime: "2018-01-26T18:30:09.453Z".to_string(),
        is_directory: false,
        sha256: None,
    }
}

#[test]
fn a_new_cache_is_empty() {
    let cache = Cache::new(3);
    assert_eq!(cache.len(), 0);
    assert_eq!(cache.stats(), &CacheStats::default());
    assert_eq!(CacheStats::default(), CacheStats { hits: 0, misses: 0 });
}

#[test]
fn an_unseen_key_is_a_miss() {
    let mut cache = Cache::new(3);
    assert_eq!(cache.get(&key("a")), None);
    assert_eq!(cache.stats(), &CacheStats { hits: 0, misses: 1 });
    assert_eq!(cache.len(), 0);
}

#[test]
fn put_then_get_is_a_hit() {
    let mut cache = Cache::new(3);
    cache.put(key("a"), stat(1));
    assert_eq!(cache.stats(), &CacheStats { hits: 0, misses: 0 });
    assert_eq!(cache.get(&key("a")), Some(&stat(1)));
    assert_eq!(cache.stats(), &CacheStats { hits: 1, misses: 0 });
    assert_eq!(cache.len(), 1);
}

#[test]
fn put_overwrites_the_value_of_a_key() {
    let mut cache = Cache::new(3);
    cache.put(key("a"), stat(1));
    cache.put(key("a"), stat(2));
    assert_eq!(cache.len(), 1);
    assert_eq!(cache.get(&key("a")), Some(&stat(2)));
}

#[test]
fn pop_then_get_is_a_miss() {
    let mut cache = Cache::new(3);
    cache.put(key("a"), stat(1));
    cache.put(key("b"), stat(2));
    assert_eq!(cache.pop(&key("a")), Some(stat(1)));
    assert_eq!(cache.pop(&key("a")), None);
    assert_eq!(cache.len(), 1);
    assert_eq!(cache.get(&key("a")), None);
    assert_eq!(cache.get(&key("b")), Some(&stat(2)));
    assert_eq!(cache.stats(), &CacheStats { hits: 1, misses: 1 });
}

#[test]
fn a_full_cache_evicts_the_least_recently_used_key() {
    let mut cache = Cache::new(2);
    cache.put(key("a"), stat(1));
    cache.put(key("b"), stat(2));
    cache.put(key("c"), stat(3));
    assert_eq!(cache.len(), 2);
    assert_eq!(cache.get(&key("a")), None);
    assert_eq!(cache.get(&key("b")), Some(&stat(2)));
    assert_eq!(cache.get(&key("c")), Some(&stat(3)));
}

#[test]
fn a_hit_refreshes_recency() {
    let mut cache = Cache::new(2);
    cache.put(key("a"), stat(1));
    cache.put(key("b"), stat(2));
    assert_eq!(cache.get(&key("a")), Some(&stat(1)));
    cache.put(key("c"), stat(3));
    assert_eq!(cache.get(&key("b")), None);
    assert_eq!(cache.get(&key("a")), Some(&stat(1)));
    assert_eq!(cache.get(&key("c")), Some(&stat(3)));
}

#[test]
fn an_overwrite_refreshes_recency() {
    let mut cache = Cache::new(2);
    cache.put(key("a"), stat(1));
    cache.put(key("b"), stat(2));
    cache.put(key("a"), stat(10));
    cache.put(key("c"), stat(3));
    assert_eq!(cache.get(&key("b")), None);
    assert_eq!(cache.get(&key("a")), Some(&stat(10)));
}

#[test]
fn a_cache_of_one_keeps_the_newest_key() {
    let mut cache = Cache::new(1);
    cache.put(key("a"), stat(1));
    cache.put(key("b"), stat(2));
    assert_eq!(cache.len(), 1);
    assert_eq!(cache.get(&key("a")), None);
    assert_eq!(cache.get(&key("b")), Some(&stat(2)));
}

#[test]
fn eviction_leaves_the_counters_alone() {
    let mut cache = Cache::new(1);
    assert_eq!(cache.get(&key("a")), None);
    cache.put(key("a"), stat(1));
    assert_eq!(cache.get(&key("a")), Some(&stat(1)));
    cache.put(key("b"), stat(2));
    cache.put(key("c"), stat(3));
    assert_eq!(cache.stats(), &CacheStats { hits: 1, misses: 1 });
}

#[test]
fn keys_are_whole_paths() {
    let mut cache = Cache::new(4);
    let deep = PortablePath::try_from(["dir1", "file"].as_slice()).unwrap();
    cache.put(deep.clone(), stat(1));
    assert_eq!(cache.get(&key("dir1")), None);
    assert_eq!(cache.get(&key("file")), None);
    assert_eq!(cache.get(&deep), Some(&stat(1)));
}

#[test]
fn dump_keys_lists_the_most_recent_first() {
    let mut cache = Cache::new(3);
    cache.put(key("a"), stat(1));
    cache.put(PortablePath::try_from(["dir1", "b"].as_slice()).unwrap(), stat(2));
    assert_eq!(cache.dump_keys(), "\"dir1/b\"\n\"a\"\n");
}
