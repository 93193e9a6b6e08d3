use portable_fs::sha256_string;
use portable_fs::CacheStats;
use portable_fs::Directory;
use portable_fs::DirectoryEntry;
use portable_fs::DirWalker;
use portable_fs::Error;
use portable_fs::FileStat;
use portable_fs::PortablePath;
use portable_fs::RelativeFs;
use portable_fs::SyncItem;
use portable_fs::Target;
use portable_fs::Timestamp;
use portable_fs::Visit;

fn path_of(parts: &[&str]) -> PortablePath {
    PortablePath::try_from(parts).unwrap()
}

fn stats_of(data: &[u8]) -> FileStat {
    FileStat {
        size: data.len() as u64,
        mtime: "2018-01-26T18:30:09.453Z".to_string(),
        is_directory: false,
        sha256: Some(sha256_string(data)),
    }
}

fn dir_stat() -> FileStat {
    FileStat {
        size: 0,
        mtime: "2020-02-02T02:02:02.000Z".to_string(),
        is_directory: true,
        sha256: None,
    }
}

fn entry(name: &str, stats: FileStat) -> SyncItem {
    SyncItem {
        path: path_of(&[name]),
        stats: Some(stats),
    }
}

/// A write in which every step on disk succeeds.
fn write_file(fs: &mut RelativeFs, path: &PortablePath, data: &[u8]) -> FileStat {
    let stats = stats_of(data);
    fs.write(path, Target::Missing, true).unwrap();
    fs.after_create(path, Ok(())).unwrap();
    fs.after_write(path, &stats, Ok(())).unwrap();
    fs.after_set_modified(path, &stats, Ok(())).unwrap();
    stats
}

/// The entries directly below the root, walked through the store's cache.
fn browse_root(fs: &mut RelativeFs, children: &[(&str, bool)]) -> Directory {
    let mut walker = fs.browse_walker();
    let mut items = Vec::new();
    for (name, is_dir) in children {
        let absolute = format!("/root/{}", name);
        let full = match walker.visit(fs.get_cache(), &absolute).unwrap() {
            Visit::Resolved(full) => full,
            Visit::Load(path) => {
                let stats = if *is_dir { dir_stat() } else { stats_of(b"") };
                walker.loaded(fs.get_cache(), path, stats)
            }
        };
        if let Some(batch) = full {
            DirWalker::gather(&mut items, batch);
        }
    }
    if let Some(batch) = walker.finish() {
        DirWalker::gather(&mut items, batch);
    }
    fs.browse_path(&PortablePath::root(), Target::Directory, &items)
        .unwrap()
}

fn check_len(fs: &mut RelativeFs, expected_len: u64) {
    let len = fs.get_cache().len();
    if len != expected_len {
        println!("{}", fs.get_cache().dump_keys());
    }
    assert_eq!(len, expected_len);
}

#[test]
fn as_abs_path_joins_under_the_root() {
    let fs = RelativeFs::from("/root".to_string());
    assert_eq!(fs.as_abs_path(&path_of(&["dir1", "a.txt"])), "/root/dir1/a.txt");
    assert_eq!(fs.as_abs_path(&PortablePath::root()), "/root");
    let slash = RelativeFs::from("/root/".to_string());
    assert_eq!(slash.as_abs_path(&path_of(&["a.txt"])), "/root/a.txt");
    let here = RelativeFs::from(String::new());
    assert_eq!(here.as_abs_path(&path_of(&["a", "b"])), "a/b");
    assert_eq!(fs.base_dir, "/root");
}

#[test]
fn test_browse_path() {
    let mut fs = RelativeFs::from("/root".to_string());
    let directory = browse_root(
        &mut fs,
        &[("file1.txt", false), ("dir3", true), ("file2.txt", false), ("dir1", true)],
    );
    assert_eq!(directory.items.len(), 4);
    let names: Vec<&str> = directory.items.iter().map(|e| e.name.as_str()).collect();
    assert_eq!(names, vec!["dir1", "dir3", "file1.txt", "file2.txt"]);
    assert_eq!(directory.current_path, PortablePath::root());
    assert_eq!(directory.items[0].stats, dir_stat());
    assert_eq!(directory.items[2].stats, stats_of(b""));
}

#[test]
fn browse_lists_directories_first_then_by_name() {
    let fs = RelativeFs::from("/root".to_string());
    let items = vec![
        entry("file1.txt", stats_of(b"")),
        entry("dir3", dir_stat()),
        entry("dir1", dir_stat()),
    ];
    let directory = fs
        .browse_path(&PortablePath::root(), Target::Directory, &items)
        .unwrap();
    let names: Vec<&str> = directory.items.iter().map(|e| e.name.as_str()).collect();
    assert_eq!(names, vec!["dir1", "dir3", "file1.txt"]);
}

#[test]
fn browse_orders_names_by_character() {
    let fs = RelativeFs::from("/root".to_string());
    let items = vec![
        entry("b", stats_of(b"")),
        entry("a.txt", stats_of(b"")),
        entry("B", stats_of(b"")),
        entry("a", stats_of(b"")),
        entry("é", stats_of(b"")),
        entry("ab", stats_of(b"")),
        entry("z", dir_stat()),
    ];
    let directory = fs
        .browse_path(&path_of(&["dir1"]), Target::Directory, &items)
        .unwrap();
    let names: Vec<&str> = directory.items.iter().map(|e| e.name.as_str()).collect();
    assert_eq!(names, vec!["z", "B", "a", "a.txt", "ab", "b", "é"]);
    assert_eq!(directory.current_path, path_of(&["dir1"]));
}

#[test]
fn browse_of_an_empty_directory_is_empty() {
    let fs = RelativeFs::from("/root".to_string());
    let directory = fs
        .browse_path(&path_of(&["dir_empty1"]), Target::Directory, &vec![])
        .unwrap();
    assert!(directory.items.is_empty());
}

#[test]
fn browse_needs_a_directory() {
    let fs = RelativeFs::from("/root".to_string());
    let path = path_of(&["file1.txt"]);
    assert_eq!(
        fs.browse_path(&path, Target::Missing, &vec![]).unwrap_err(),
        Error::InvalidArgument("Path does not exist".to_string())
    );
    assert_eq!(
        fs.browse_path(&path, Target::File, &vec![]).unwrap_err(),
        Error::InvalidArgument("Path is not a directory".to_string())
    );
}

#[test]
fn browse_reports_the_first_entry_without_a_line() {
    let fs = RelativeFs::from("/root".to_string());
    let gone = SyncItem {
        path: path_of(&["gone"]),
        stats: None,
    };
    let nameless = SyncItem {
        path: PortablePath::root(),
        stats: Some(dir_stat()),
    };
    let items = vec![entry("a", stats_of(b"")), gone.clone(), nameless.clone()];
    assert_eq!(
        fs.browse_path(&PortablePath::root(), Target::Directory, &items)
            .unwrap_err(),
        Error::ReadError {
            what: "failed to lookup stats".to_string(),
            how: "none found".to_string()
        }
    );
    let items = vec![nameless, gone];
    assert_eq!(
        fs.browse_path(&PortablePath::root(), Target::Directory, &items)
            .unwrap_err(),
        Error::InvalidPath {
            what: String::new()
        }
    );
}

#[test]
fn directory_entry_takes_name_and_stats() {
    let item = SyncItem {
        path: path_of(&["dir1", "file3.txt"]),
        stats: Some(stats_of(b"abc")),
    };
    assert_eq!(
        DirectoryEntry::try_from(&item),
        Ok(DirectoryEntry {
            name: "file3.txt".to_string(),
            stats: stats_of(b"abc")
        })
    );
}

#[test]
fn test_write() {
    let mut fs = RelativeFs::from("/root".to_string());
    let fpath: &[&str] = &["test_file.txt"];
    let portable_path = PortablePath::try_from(fpath).unwrap();
    let data: &[u8] = b"Hello, world!";
    let stats = stats_of(data);

    let plan = fs.write(&portable_path, Target::Missing, true).unwrap();
    assert_eq!(plan.full_path, "/root/test_file.txt");
    assert_eq!(plan.parent_dir.as_deref(), Some("/root"));
    assert_eq!(fs.after_create(&portable_path, Ok(())), Ok(()));
    let mtime = fs.after_write(&portable_path, &stats, Ok(())).unwrap();
    assert_eq!(
        mtime,
        Timestamp {
            secs: 1516991409,
            nanos: 453_000_000
        }
    );
    assert_eq!(fs.after_set_modified(&portable_path, &stats, Ok(())), Ok(()));
    assert_eq!(stats.size, data.len() as u64);
    assert_eq!(
        stats.sha256.as_ref().unwrap(),
        "315f5bdb76d078c43b8ac0064e4a0164612b1fce77c869345bfc94c75894edd3"
    );
    assert_eq!(fs.get_cache().get(&portable_path), Some(&stats));
}

#[test]
fn write_creates_the_parent_of_a_nested_file() {
    let fs = RelativeFs::from("/root".to_string());
    let plan = fs
        .write(&path_of(&["dir1", "dir2", "new.txt"]), Target::Missing, false)
        .unwrap();
    assert_eq!(plan.full_path, "/root/dir1/dir2/new.txt");
    assert_eq!(plan.parent_dir.as_deref(), Some("/root/dir1/dir2"));
    let plan = fs.write(&PortablePath::root(), Target::Missing, false).unwrap();
    assert_eq!(plan.parent_dir, None);
}

#[test]
fn write_without_overwrite_refuses_an_existing_target() {
    let mut fs = RelativeFs::from("/root".to_string());
    let path = path_of(&["test_file.txt"]);
    let first = write_file(&mut fs, &path, b"Hello, world!");
    for target in [Target::File, Target::Directory] {
        match fs.write(&path, target, false) {
            Err(e) => assert_eq!(e, Error::FileExists("/root/test_file.txt".to_string())),
            Ok(_) => panic!("an existing target is not written over"),
        }
    }
    assert_eq!(fs.get_cache().get(&path), Some(&first));
    assert!(fs.write(&path, Target::File, true).is_ok());
    assert!(fs.write(&path, Target::Missing, false).is_ok());
}

#[test]
fn a_second_write_replaces_the_cached_snapshot() {
    let mut fs = RelativeFs::from("/root".to_string());
    let path = path_of(&["test_file.txt"]);
    write_file(&mut fs, &path, b"Hello, world!");
    let second = write_file(&mut fs, &path, b"other");
    assert_eq!(fs.get_cache().len(), 1);
    assert_eq!(fs.get_cache().get(&path), Some(&second));
}

#[test]
fn browse_after_write_reports_the_declared_mtime() {
    let mut fs = RelativeFs::from("/root".to_string());
    let path = path_of(&["test_file.txt"]);
    let stats = write_file(&mut fs, &path, b"Hello, world!");
    let directory = browse_root(&mut fs, &[("test_file.txt", false)]);
    assert_eq!(directory.items.len(), 1);
    assert_eq!(directory.items[0].stats.mtime, stats.mtime);
    assert_eq!(directory.items[0].stats, stats);
}

#[test]
fn failures_on_disk_end_a_write() {
    let mut fs = RelativeFs::from("/root".to_string());
    let path = path_of(&["dir1", "a.txt"]);
    let stats = stats_of(b"abc");
    assert_eq!(
        fs.after_create(&path, Err("denied".to_string())),
        Err(Error::CreateFailed {
            what: "dir1".to_string(),
            how: "Failed to create directories: denied".to_string()
        })
    );
    assert_eq!(
        fs.after_write(&path, &stats, Err("disk full".to_string())),
        Err(Error::WriteFailed {
            what: "/root/dir1/a.txt".to_string(),
            how: "disk full".to_string()
        })
    );
    assert_eq!(
        fs.after_set_modified(&path, &stats, Err("denied".to_string())),
        Err(Error::WriteFailed {
            what: "/root/dir1/a.txt".to_string(),
            how: "denied".to_string()
        })
    );
    assert_eq!(fs.get_cache().len(), 0);
}

#[test]
fn a_bad_mtime_ends_a_write_before_the_cache() {
    let mut fs = RelativeFs::from("/root".to_string());
    let path = path_of(&["a.txt"]);
    let mut stats = stats_of(b"abc");
    stats.mtime = "last tuesday".to_string();
    match fs.after_write(&path, &stats, Ok(())) {
        Err(Error::ParseError { what, .. }) => assert_eq!(what, "parse system time"),
        other => panic!("expected a parse error, got {:?}", other),
    }
    assert_eq!(fs.get_cache().len(), 0);
}

#[test]
fn test_delete_file() {
    let mut fs = RelativeFs::from("/root".to_string());
    let portable_path = PortablePath::from_native("test_file.txt").unwrap();
    write_file(&mut fs, &portable_path, b"Hello, world!");

    assert_eq!(
        fs.delete_file(&portable_path, Target::File),
        Ok("/root/test_file.txt".to_string())
    );
    assert_eq!(fs.after_delete(&portable_path, Ok(())), Ok(()));
    assert_eq!(fs.get_cache().len(), 0);
    assert_eq!(fs.get_cache().get(&portable_path), None);
}

#[test]
fn delete_needs_a_file() {
    let fs = RelativeFs::from("/root".to_string());
    let path = path_of(&["dir1"]);
    assert_eq!(
        fs.delete_file(&path, Target::Missing),
        Err(Error::InvalidArgument("File does not exist".to_string()))
    );
    assert_eq!(
        fs.delete_file(&path, Target::Directory),
        Err(Error::InvalidArgument("Path is a directory".to_string()))
    );
}

#[test]
fn a_failed_delete_keeps_the_cached_snapshot() {
    let mut fs = RelativeFs::from("/root".to_string());
    let path = path_of(&["a.txt"]);
    let stats = write_file(&mut fs, &path, b"abc");
    assert_eq!(
        fs.after_delete(&path, Err("busy".to_string())),
        Err(Error::DeleteFailed {
            what: "/root/a.txt".to_string(),
            how: "busy".to_string()
        })
    );
    assert_eq!(fs.get_cache().get(&path), Some(&stats));
}

#[test]
fn read_after_delete_finds_no_file() {
    let mut fs = RelativeFs::from("/root".to_string());
    let path = path_of(&["a.txt"]);
    write_file(&mut fs, &path, b"abc");
    fs.delete_file(&path, Target::File).unwrap();
    fs.after_delete(&path, Ok(())).unwrap();
    assert_eq!(
        fs.read_file(&path, Target::Missing),
        Err(Error::InvalidArgument("File does not exist".to_string()))
    );
}

#[test]
fn read_hands_the_bytes_through() {
    let fs = RelativeFs::from("/root".to_string());
    let path = path_of(&["a.txt"]);
    assert_eq!(fs.read_file(&path, Target::File), Ok("/root/a.txt".to_string()));
    assert_eq!(
        fs.after_read(&path, Ok(b"Hello, world!".to_vec())),
        Ok(b"Hello, world!".to_vec())
    );
    assert_eq!(
        fs.read_file(&path, Target::Directory),
        Err(Error::InvalidArgument("Path is a directory".to_string()))
    );
    assert_eq!(
        fs.after_read(&path, Err("denied".to_string())),
        Err(Error::ReadError {
            what: "/root/a.txt".to_string(),
            how: "denied".to_string()
        })
    );
}

#[test]
fn test_cache() {
    let mut fs = RelativeFs::from("/root".to_string());

    let mut cstats = CacheStats::default();
    check_len(&mut fs, 0);
    check_len(&mut fs, 0);
    assert_eq!(fs.get_cache().stats(), &cstats);

    let fpath: &[&str] = &["test_file.txt"];
    let portable_path = PortablePath::try_from(fpath).unwrap();
    let data: &[u8] = b"Hello, world!";
    let stats = write_file(&mut fs, &portable_path, data);
    assert_eq!(fs.get_cache().stats(), &cstats);

    assert_eq!(fs.get_cache().get(&portable_path).unwrap(), &stats);
    check_len(&mut fs, 1);
    cstats.hits += 1;
    assert_eq!(fs.get_cache().stats(), &cstats);

    fs.delete_file(&portable_path, Target::File).unwrap();
    fs.after_delete(&portable_path, Ok(())).unwrap();
    check_len(&mut fs, 0);
    assert_eq!(fs.get_cache().stats(), &cstats);
    assert_eq!(fs.get_cache().get(&portable_path), None);
    cstats.misses += 1;
    assert_eq!(fs.get_cache().stats(), &cstats);

    let top = [("file1.txt", false), ("file2.txt", false), ("dir1", true), ("dir3", true)];
    let _ = browse_root(&mut fs, &top);
    check_len(&mut fs, 4);
    cstats.misses += 4;
    assert_eq!(fs.get_cache().stats(), &cstats);

    let old_len = fs.get_cache().len();
    let tree = [
        ("file1.txt", false),
        ("file2.txt", false),
        ("dir1", true),
        ("dir1/file3.txt", false),
        ("dir1/dir2", true),
        ("dir1/dir2/file4.txt", false),
        ("dir1/dir2/dir_empty1", true),
        ("dir3", true),
        ("dir3/file6.txt", false),
    ];
    let (_, mut walker) = fs.recurse_path(&PortablePath::root());
    for (relative, is_dir) in tree {
        let absolute = format!("/root/{}", relative);
        match walker.visit(fs.get_cache(), &absolute).unwrap() {
            Visit::Resolved(_) => {}
            Visit::Load(path) => {
                let stats = if is_dir { dir_stat() } else { stats_of(b"") };
                walker.loaded(fs.get_cache(), path, stats);
            }
        }
    }
    check_len(&mut fs, tree.len() as u64);
    cstats.hits += old_len;
    cstats.misses += tree.len() as u64 - old_len;
    assert_eq!(fs.get_cache().stats(), &cstats);
}

/// The snapshot of an entry as a walk computes it on a miss.
fn snapshot(is_dir: bool, content: &[u8]) -> FileStat {
    let at = Timestamp {
        secs: 1516991409,
        nanos: 453_000_000,
    };
    let size = if is_dir { 4096 } else { content.len() as u64 };
    let meta = FileStat::from_metadata(size, Some(at), is_dir).unwrap();
    match FileStat::from_path(meta) {
        portable_fs::Snapshot::Ready(stat) => stat,
        portable_fs::Snapshot::Reading(mut reader) => {
            reader.update(content);
            reader.finish()
        }
    }
}

/// Walks `entries` of the tree below `/root` and gathers the records.
fn gather_walk(fs: &mut RelativeFs, mut walker: DirWalker, entries: &[(&str, bool)]) -> Vec<SyncItem> {
    let mut items = Vec::new();
    for (relative, is_dir) in entries {
        let absolute = format!("/root/{}", relative);
        let full = match walker.visit(fs.get_cache(), &absolute).unwrap() {
            Visit::Resolved(full) => full,
            Visit::Load(path) => {
                let stats = snapshot(*is_dir, relative.as_bytes());
                walker.loaded(fs.get_cache(), path, stats)
            }
        };
        if let Some(batch) = full {
            DirWalker::gather(&mut items, batch);
        }
    }
    if let Some(batch) = walker.finish() {
        DirWalker::gather(&mut items, batch);
    }
    items
}

#[test]
fn a_small_tree_browsed_and_walked() {
    let tree = [
        ("file1.txt", false),
        ("dir1", true),
        ("dir1/file3.txt", false),
        ("dir1/dir2", true),
        ("dir1/dir2/file4.txt", false),
        ("dir1/dir2/dir_empty1", true),
        ("dir3", true),
        ("dir3/file6.txt", false),
    ];
    let mut fs = RelativeFs::from("/root".to_string());

    let top: Vec<(&str, bool)> = tree.iter().filter(|(p, _)| !p.contains('/')).cloned().collect();
    let walker = fs.browse_walker();
    let children = gather_walk(&mut fs, walker, &top);
    let listing = fs
        .browse_path(&PortablePath::root(), Target::Directory, &children)
        .unwrap();
    let names: Vec<&str> = listing.items.iter().map(|e| e.name.as_str()).collect();
    assert_eq!(names, vec!["dir1", "dir3", "file1.txt"]);

    let (full_path, walker) = fs.recurse_path(&PortablePath::root());
    assert_eq!(full_path, "/root");
    let records = gather_walk(&mut fs, walker, &tree);
    assert_eq!(records.len(), 8);
    for (record, (relative, is_dir)) in records.iter().zip(tree) {
        assert_eq!(record.path.to_string(), relative);
        let stats = record.stats.as_ref().unwrap();
        assert_eq!(stats.is_directory, is_dir);
        if is_dir {
            assert_eq!(stats.sha256, None);
        } else {
            assert_eq!(stats.sha256, Some(sha256_string(relative.as_bytes())));
            assert_eq!(stats.size, relative.len() as u64);
        }
    }
    let empty = &records[5];
    assert_eq!(empty.path, path_of(&["dir1", "dir2", "dir_empty1"]));
    assert!(empty.stats.as_ref().unwrap().is_directory);
    assert_eq!(empty.stats.as_ref().unwrap().sha256, None);
}
