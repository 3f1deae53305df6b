use synology_filestation_fuse::cache::{cache_root_for, needs_v1_migration, schema_after_v1};
use synology_filestation_fuse::memo::ResponseMemo;
use synology_filestation_fuse::{epoch_from_seconds, read_range, CacheMeta, FileCache, FileSystemInfo};

fn info_at(path: &str, mtime: u64, size: u64) -> FileSystemInfo {
    FileSystemInfo {
        atime: epoch_from_seconds(1),
        mtime: epoch_from_seconds(mtime),
        ctime: epoch_from_seconds(1),
        crtime: epoch_from_seconds(1),
        perm: 0o644,
        name: path.rsplit('/').next().unwrap().to_string(),
        path: path.to_string(),
        is_dir: false,
        size,
        ino: 5,
    }
}

#[test]
fn epoch_seconds_kept() {
    assert_eq!(epoch_from_seconds(1234).secs, 1234);
}

#[test]
fn uncached_file_is_not_cached() {
    let mut c = FileCache::new("/c");
    assert!(!c.is_file_cached(&info_at("/s/a", 10, 3), true));
}

#[test]
fn cached_file_with_same_mtime_is_hit() {
    let mut c = FileCache::new("/c");
    let info = info_at("/s/a", 10, 3);
    c.create_file_cache(&info, 99);
    assert!(c.is_file_cached(&info, true));
    assert_eq!(c.lookup("/s/a"), Some(CacheMeta { mtime: 10, size: 3, last_access: 99 }));
}

#[test]
fn stale_mtime_purges_record() {
    let mut c = FileCache::new("/c");
    c.create_file_cache(&info_at("/s/a", 10, 3), 99);
    assert!(!c.is_file_cached(&info_at("/s/a", 11, 4), true));
    assert_eq!(c.lookup("/s/a"), None);
}

#[test]
fn missing_blob_purges_record() {
    let mut c = FileCache::new("/c");
    let info = info_at("/s/a", 10, 3);
    c.create_file_cache(&info, 99);
    assert!(!c.is_file_cached(&info, false));
    assert_eq!(c.lookup("/s/a"), None);
}

#[test]
fn new_download_supersedes_record() {
    let mut c = FileCache::new("/c");
    c.create_file_cache(&info_at("/s/a", 10, 3), 99);
    c.create_file_cache(&info_at("/s/a", 20, 5), 120);
    assert_eq!(c.lookup("/s/a"), Some(CacheMeta { mtime: 20, size: 5, last_access: 120 }));
    c.delete_cache_entry("/s/a");
    assert_eq!(c.lookup("/s/a"), None);
}

#[test]
fn restore_keeps_other_records() {
    let mut c = FileCache::new("/c");
    c.restore_record("/s/a", CacheMeta { mtime: 1, size: 2, last_access: 3 });
    c.restore_record("/s/b", CacheMeta { mtime: 4, size: 5, last_access: 6 });
    c.delete_cache_entry("/s/a");
    assert_eq!(c.lookup("/s/b"), Some(CacheMeta { mtime: 4, size: 5, last_access: 6 }));
}

#[test]
fn cache_path_under_root() {
    let c = FileCache::new("/home/u/.cache/x");
    assert_eq!(c.get_cache_path(&info_at("/s/d/a.txt", 1, 1)), "/home/u/.cache/x/s/d/a.txt");
    assert_eq!(c.root(), "/home/u/.cache/x");
}

#[test]
fn cache_root_per_host() {
    assert_eq!(
        cache_root_for("/home/u/.cache", "nas"),
        "/home/u/.cache/Engineers for Exploration/synology-filestation-fuse/nas"
    );
}

#[test]
fn schema_migration_versions() {
    assert_eq!(schema_after_v1(0), 1);
    assert_eq!(schema_after_v1(1), 1);
    assert_eq!(schema_after_v1(3), 3);
    assert!(needs_v1_migration(0));
    assert!(!needs_v1_migration(1));
}

#[test]
fn consecutive_reads_cover_content() {
    let content: Vec<u8> = (0u8..30).collect();
    let first = read_range(&content, 0, 10);
    let second = read_range(&content, 10, 15);
    assert_eq!(first, (0u8..10).collect::<Vec<u8>>());
    assert_eq!(second, (10u8..25).collect::<Vec<u8>>());
    let mut both = first.clone();
    both.extend(second);
    assert_eq!(both, read_range(&content, 0, 25));
}

#[test]
fn short_read_near_end() {
    let content: Vec<u8> = vec![1, 2, 3, 4, 5];
    assert_eq!(read_range(&content, 3, 10), vec![4, 5]);
    assert_eq!(read_range(&content, 5, 10), Vec::<u8>::new());
    assert_eq!(read_range(&content, u64::MAX, usize::MAX), Vec::<u8>::new());
}

#[test]
fn memo_store_and_remove() {
    let mut m = ResponseMemo::new();
    m.store("a", 1, "x");
    m.store("b", 1, "y");
    m.remove("a");
    assert_eq!(m.lookup("a", 1, 5, true), None);
    assert_eq!(m.lookup("b", 2, 5, true), Some("y".to_string()));
}

#[test]
fn file_cache_path_only_when_valid() {
    let mut c = FileCache::new("/c");
    let info = info_at("/s/a", 10, 3);
    assert_eq!(c.get_file_cache(&info, true), None);
    c.create_file_cache(&info, 5);
    assert_eq!(c.get_file_cache(&info, true), Some("/c/s/a".to_string()));
    assert_eq!(c.get_file_cache(&info, false), None);
    assert_eq!(c.lookup("/s/a"), None);
}
