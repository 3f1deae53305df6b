use synology_filestation_fuse::{
    next_dir_entry, path_kind, DirStep, FileAdditional, FileCache, FileStationFileSystem, FileStationItem, Fetched,
    FsError, ListFilesResult, ListSharesResult, PathKind, Perm, ReadAction, ShareAdditional, Time, VolumeStatus,
};

fn time_of(base: u64) -> Time {
    Time { atime: base, mtime: base + 1, ctime: base + 2, crtime: base + 3 }
}

fn share(name: &str, totalspace: u64, base: u64, posix: u16) -> FileStationItem<ShareAdditional> {
    FileStationItem {
        isdir: true,
        name: name.to_string(),
        path: format!("/{}", name),
        additional: ShareAdditional {
            time: time_of(base),
            volume_status: VolumeStatus { freespace: 1, readonly: false, totalspace },
            perm: Perm { posix },
        },
    }
}

fn file(path: &str, isdir: bool, size: u64, mtime: u64) -> FileStationItem<FileAdditional> {
    let name = path.rsplit('/').next().unwrap().to_string();
    FileStationItem {
        isdir,
        name,
        path: path.to_string(),
        additional: FileAdditional {
            size,
            time: Time { atime: 1, mtime, ctime: 2, crtime: 3 },
            perm: Perm { posix: 0o644 },
        },
    }
}

fn shares_fetch() -> Fetched {
    Fetched::Shares(ListSharesResult {
        offset: 0,
        shares: vec![share("shareA", 100, 10, 0o777), share("shareB", 500, 20, 0o750), share("shareC", 500, 30, 0o700)],
        total: 3,
    })
}

fn engine() -> FileStationFileSystem {
    FileStationFileSystem::new("nas.local", 5001, true, FileCache::new("/tmp/cache"))
}

fn docs_listing() -> Fetched {
    Fetched::Listing(ListFilesResult {
        offset: Some(0),
        files: vec![file("/shareA/docs/a.txt", false, 10, 100), file("/shareA/docs/b.txt", false, 20, 200)],
        total: Some(2),
    })
}

#[test]
fn root_ino_resolves_to_root_after_construction() {
    let mut fs = engine();
    let path = fs.get_path_for_ino(1).unwrap();
    assert_eq!(path, "/");
    let info = fs.get_info(&path, &shares_fetch()).unwrap();
    assert_eq!(info.path, "/");
    assert_eq!(info.ino, 1);
    assert!(info.is_dir);
    assert_eq!(info.size, 0);
    assert_eq!(info.perm, 0o755);
}

#[test]
fn root_takes_times_of_first_largest_share() {
    let mut fs = engine();
    let info = fs.get_info("/", &shares_fetch()).unwrap();
    assert_eq!(info.atime.secs, 20);
    assert_eq!(info.mtime.secs, 21);
    assert_eq!(info.ctime.secs, 22);
    assert_eq!(info.crtime.secs, 23);
}

#[test]
fn root_without_shares_has_zero_times() {
    let mut fs = engine();
    let empty = Fetched::Shares(ListSharesResult { offset: 0, shares: vec![], total: 0 });
    let info = fs.get_info("/", &empty).unwrap();
    assert_eq!(info.mtime.secs, 0);
    assert_eq!(info.ino, 1);
}

#[test]
fn resolve_share_reports_remote_permissions() {
    let mut fs = engine();
    let info = fs.get_info("/shareA", &shares_fetch()).unwrap();
    assert!(info.is_dir);
    assert_eq!(info.size, 0);
    assert_eq!(info.perm, 0o777);
    assert_eq!(info.name, "shareA");
    assert_eq!(info.path, "/shareA");
    assert_eq!(info.ino, 2);
    assert_eq!(info.mtime.secs, 11);
}

#[test]
fn resolve_missing_share_is_not_found() {
    let mut fs = engine();
    assert_eq!(fs.get_info("/nope", &shares_fetch()).err(), Some(FsError::NotFound));
    assert!(fs.get_path_for_ino(2).is_err());
}

#[test]
fn resolve_nested_file_uses_remote_size() {
    let mut fs = engine();
    let item = Fetched::Item(file("/shareA/docs/a.txt", false, 10, 100));
    let info = fs.get_info("/shareA/docs/a.txt", &item).unwrap();
    assert!(!info.is_dir);
    assert_eq!(info.size, 10);
    assert_eq!(info.perm, 0o644);
    assert_eq!(info.ino, 2);
    assert_eq!(fs.get_path_for_ino(2).unwrap(), "/shareA/docs/a.txt");
}

#[test]
fn resolve_nested_directory_has_size_zero() {
    let mut fs = engine();
    let item = Fetched::Item(file("/shareA/docs", true, 4096, 100));
    let info = fs.get_info("/shareA/docs", &item).unwrap();
    assert!(info.is_dir);
    assert_eq!(info.size, 0);
}

#[test]
fn resolve_with_wrong_fetch_is_protocol_error() {
    let mut fs = engine();
    assert_eq!(fs.get_info("/shareA/docs", &shares_fetch()).err(), Some(FsError::ProtocolError));
    assert_eq!(fs.get_info("/", &docs_listing()).err(), Some(FsError::ProtocolError));
    assert_eq!(fs.list_files("/", &docs_listing()).err(), Some(FsError::ProtocolError));
}

#[test]
fn ino_lookup_of_unknown_is_internal_inconsistency() {
    let fs = engine();
    assert_eq!(fs.get_path_for_ino(42), Err(FsError::InternalInconsistency));
}

#[test]
fn path_kinds() {
    assert_eq!(path_kind("/"), PathKind::Root);
    assert_eq!(path_kind("/shareA"), PathKind::Share);
    assert_eq!(path_kind("/shareA/docs"), PathKind::Nested);
}

#[test]
fn root_listing_has_one_dir_per_share_with_stable_inos() {
    let mut fs = engine();
    let first = fs.list_files("/", &shares_fetch()).unwrap();
    assert_eq!(first.len(), 3);
    for e in first.iter() {
        assert!(e.is_dir);
        assert_eq!(e.size, 0);
    }
    assert_eq!(first[1].perm, 0o750);
    let second = fs.list_files("/", &shares_fetch()).unwrap();
    let a: Vec<u64> = first.iter().map(|e| e.ino).collect();
    let b: Vec<u64> = second.iter().map(|e| e.ino).collect();
    assert_eq!(a, vec![2, 3, 4]);
    assert_eq!(a, b);
}

#[test]
fn cursor_enumerates_docs_directory() {
    let mut fs = engine();
    let entries = fs.list_files("/shareA/docs", &docs_listing()).unwrap();
    let (a, cursor_a) = match next_dir_entry(&entries, 0) {
        DirStep::Entry(e, c) => (e, c),
        DirStep::Exhausted => panic!("expected a.txt"),
    };
    assert_eq!(a.name, "a.txt");
    assert_eq!(a.size, 10);
    assert_eq!(cursor_a, a.ino);
    let entries = fs.list_files("/shareA/docs", &docs_listing()).unwrap();
    let (b, cursor_b) = match next_dir_entry(&entries, cursor_a) {
        DirStep::Entry(e, c) => (e, c),
        DirStep::Exhausted => panic!("expected b.txt"),
    };
    assert_eq!(b.name, "b.txt");
    assert_eq!(b.size, 20);
    assert_eq!(cursor_b, b.ino);
    let entries = fs.list_files("/shareA/docs", &docs_listing()).unwrap();
    assert!(matches!(next_dir_entry(&entries, cursor_b), DirStep::Exhausted));
}

#[test]
fn cursor_on_empty_listing_is_exhausted() {
    assert!(matches!(next_dir_entry(&Vec::new(), 0), DirStep::Exhausted));
}

#[test]
fn cursor_enumeration_visits_each_entry_once() {
    let mut fs = engine();
    let listing = Fetched::Listing(ListFilesResult {
        offset: None,
        files: vec![file("/s/x/1", false, 1, 1), file("/s/x/2", true, 0, 1), file("/s/x/3", false, 3, 1)],
        total: None,
    });
    let mut seen = Vec::new();
    let mut cursor = 0;
    loop {
        let entries = fs.list_files("/s/x", &listing).unwrap();
        match next_dir_entry(&entries, cursor) {
            DirStep::Entry(e, c) => {
                seen.push(e.name.clone());
                cursor = c;
            }
            DirStep::Exhausted => break,
        }
    }
    assert_eq!(seen, vec!["1", "2", "3"]);
}

#[test]
fn read_after_not_found_touches_no_cache() {
    let fs = engine();
    let resolved = Err(synology_filestation_fuse::station::remote_error(408));
    assert_eq!(fs.read_bytes(&resolved, true), Err(FsError::NotFound));
    assert!(fs.file_cache().lookup("/shareA/docs/a.txt").is_none());
}

#[test]
fn read_of_uncached_file_downloads_then_hits() {
    let mut fs = engine();
    let info = fs.get_info("/shareA/docs/a.txt", &Fetched::Item(file("/shareA/docs/a.txt", false, 10, 100))).unwrap();
    assert_eq!(fs.read_bytes(&Ok(info.clone()), false), Ok(ReadAction::Download));
    fs.finish_download(&info, 1000);
    assert_eq!(fs.read_bytes(&Ok(info.clone()), true), Ok(ReadAction::ServeCached));
}

#[test]
fn read_after_remote_change_downloads_again() {
    let mut fs = engine();
    let old = fs.get_info("/shareA/docs/a.txt", &Fetched::Item(file("/shareA/docs/a.txt", false, 10, 100))).unwrap();
    fs.finish_download(&old, 1000);
    let new = fs.get_info("/shareA/docs/a.txt", &Fetched::Item(file("/shareA/docs/a.txt", false, 12, 300))).unwrap();
    assert_eq!(fs.read_bytes(&Ok(new.clone()), true), Ok(ReadAction::Download));
    assert_eq!(fs.file_cache().lookup("/shareA/docs/a.txt").map(|m| m.mtime), Some(100));
    fs.finish_download(&new, 2000);
    let meta = fs.file_cache().lookup("/shareA/docs/a.txt").unwrap();
    assert_eq!((meta.mtime, meta.size, meta.last_access), (300, 12, 2000));
    assert_eq!(fs.read_bytes(&Ok(new), true), Ok(ReadAction::ServeCached));
}

#[test]
fn share_with_trailing_separator_resolves_as_share() {
    let mut fs = engine();
    assert_eq!(path_kind("/shareA/"), PathKind::Share);
    assert_eq!(path_kind("//"), PathKind::Root);
    let info = fs.get_info("/shareA/", &shares_fetch()).unwrap();
    assert_eq!(info.path, "/shareA");
    assert_eq!(info.perm, 0o777);
    assert_eq!(fs.get_path_for_ino(info.ino).unwrap(), "/shareA");
}

#[test]
fn engine_logout_returns_logout_request() {
    let mut fs = engine();
    assert_eq!(fs.logout(), Err(FsError::Unauthorized));
    let answer = synology_filestation_fuse::SynologyResult {
        success: true,
        data: synology_filestation_fuse::LoginResult { sid: "s1".to_string() },
    };
    assert_eq!(fs.login(200, Some(answer)), Ok(()));
    assert_eq!(
        fs.logout().unwrap(),
        "https://nas.local:5001/webapi/entry.cgi?api=SYNO.API.Auth&version=1&method=logout&_sid=s1&session=FileStation"
    );
    assert_eq!(fs.logout(), Err(FsError::Unauthorized));
}

#[test]
fn cache_path_is_remote_path_under_root() {
    let mut fs = engine();
    let info = fs.get_info("/shareA/docs/a.txt", &Fetched::Item(file("/shareA/docs/a.txt", false, 10, 100))).unwrap();
    assert_eq!(fs.cache_path(&info), "/tmp/cache/shareA/docs/a.txt");
}
