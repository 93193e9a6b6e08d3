use std::cmp::Ordering;

use portable_fs::Error;
use portable_fs::FileStat;
use portable_fs::PortablePath;

fn path_of(parts: &[&str]) -> PortablePath {
    PortablePath::try_from(parts).unwrap()
}

fn invalid_argument(r: Result<PortablePath, Error>) -> String {
    match r {
        Err(Error::InvalidArgument(text)) => text,
        other => panic!("expected an invalid argument, got {:?}", other),
    }
}

#[test]
fn test_path() {
    let path = PortablePath::try_from(["dir1", "dir2", "file.txt"].as_slice()).unwrap();
    let s = "{\"components\":[\"dir1\",\"dir2\",\"file.txt\"]}";

    let mut object = serde_json::Map::new();
    object.insert(
        "components".to_string(),
        serde_json::Value::from(path.components().clone()),
    );
    assert_eq!(
        s,
        &serde_json::to_string(&serde_json::Value::Object(object)).unwrap()
    );

    let value: serde_json::Value = serde_json::from_str(s).unwrap();
    let parts: Vec<&str> = value["components"]
        .as_array()
        .unwrap()
        .iter()
        .map(|v| v.as_str().unwrap())
        .collect();
    assert_eq!(path, PortablePath::try_from(parts.as_slice()).unwrap());
}

#[test]
fn components_round_trip() {
    let path = path_of(&["a", "b c", "d.txt", "...", "é"]);
    let parts: Vec<&str> = path.components().iter().map(|s| s.as_str()).collect();
    assert_eq!(parts, vec!["a", "b c", "d.txt", "...", "é"]);
    assert_eq!(PortablePath::try_from(parts.as_slice()).unwrap(), path);
}

#[test]
fn text_round_trip() {
    let path = path_of(&["dir1", "dir2", "file4.txt"]);
    assert_eq!(path.to_string(), "dir1/dir2/file4.txt");
    assert_eq!(PortablePath::from_native(&path.to_string()).unwrap(), path);
    let root = PortablePath::root();
    assert_eq!(root.to_string(), "");
    assert_eq!(PortablePath::from_native("").unwrap(), root);
}

#[test]
fn dot_components_are_rejected_anywhere() {
    for parts in [
        vec!["."],
        vec![".."],
        vec!["..", "a"],
        vec!["a", "..", "b"],
        vec!["a", "b", "."],
        vec!["a", ".", "b"],
    ] {
        let text = invalid_argument(PortablePath::try_from(parts.as_slice()));
        assert!(text.starts_with("Invalid path component: ."));
    }
}

#[test]
fn the_first_invalid_component_is_named() {
    assert_eq!(
        invalid_argument(PortablePath::try_from(["a", "b/c", ".."].as_slice())),
        "Invalid path component: b/c"
    );
    assert_eq!(
        invalid_argument(PortablePath::try_from(["a\\b"].as_slice())),
        "Invalid path component: a\\b"
    );
    assert_eq!(
        invalid_argument(PortablePath::try_from(["a", ""].as_slice())),
        "Invalid path component: "
    );
    assert_eq!(
        invalid_argument(PortablePath::try_from(["ok", "..", "."].as_slice())),
        "Invalid path component: .."
    );
}

#[test]
fn names_with_dots_are_components() {
    assert!(PortablePath::try_from(["...", ".hidden", "a.b", "..a"].as_slice()).is_ok());
    assert!(portable_fs::portable_path::is_valid_component("..."));
    assert!(!portable_fs::portable_path::is_valid_component(".."));
    assert!(!portable_fs::portable_path::is_valid_component("."));
    assert!(!portable_fs::portable_path::is_valid_component(""));
    assert!(!portable_fs::portable_path::is_valid_component("a/b"));
    assert!(!portable_fs::portable_path::is_valid_component("a\\b"));
}

#[test]
fn empty_sequence_is_the_root() {
    let none: &[&str] = &[];
    let root = PortablePath::try_from(none).unwrap();
    assert_eq!(root, PortablePath::root());
    assert_eq!(root.basename(), None);
    assert_eq!(root.parent(), None);
    assert_eq!(root.components().len(), 0);
}

#[test]
fn basename_and_parent() {
    let path = path_of(&["dir1", "dir2", "file4.txt"]);
    assert_eq!(path.basename(), Some("file4.txt"));
    let parent = path.parent().unwrap();
    assert_eq!(parent, path_of(&["dir1", "dir2"]));
    assert_eq!(parent.basename(), Some("dir2"));
    let top = path_of(&["file1.txt"]);
    assert_eq!(top.parent(), Some(PortablePath::root()));
}

#[test]
fn push_appends_valid_components_only() {
    let mut path = path_of(&["dir1"]);
    assert_eq!(path.push("file3.txt"), Ok(()));
    assert_eq!(path, path_of(&["dir1", "file3.txt"]));
    let before = path.clone();
    assert_eq!(
        path.push(".."),
        Err(Error::InvalidArgument(
            "Invalid path component: ..".to_string()
        ))
    );
    assert_eq!(path, before);
    assert!(path.push("a/b").is_err());
    assert!(path.push("").is_err());
    assert_eq!(path, before);
}

#[test]
fn from_native_splits_at_separators() {
    assert_eq!(
        PortablePath::from_native("dir1/dir2/file4.txt").unwrap(),
        path_of(&["dir1", "dir2", "file4.txt"])
    );
    assert_eq!(
        PortablePath::from_native("/dir1//dir2/").unwrap(),
        path_of(&["dir1", "dir2"])
    );
    assert_eq!(
        PortablePath::from_native("test_file.txt").unwrap(),
        path_of(&["test_file.txt"])
    );
    assert_eq!(PortablePath::from_native("/").unwrap(), PortablePath::root());
}

#[test]
fn from_native_rejects_traversal() {
    assert_eq!(
        invalid_argument(PortablePath::from_native(".")),
        "Path cannot contain '.' or '..' components"
    );
    assert_eq!(
        invalid_argument(PortablePath::from_native("..")),
        "Path cannot contain '.' or '..' components"
    );
    assert_eq!(
        invalid_argument(PortablePath::from_native("a/../b")),
        "Invalid path component: .."
    );
    assert_eq!(
        invalid_argument(PortablePath::from_native("../etc/passwd")),
        "Invalid path component: .."
    );
    assert_eq!(
        invalid_argument(PortablePath::from_native("a/./b")),
        "Invalid path component: ."
    );
    assert_eq!(
        invalid_argument(PortablePath::from_native("a/b\\c")),
        "Invalid path component: b\\c"
    );
}

#[test]
fn lookup_of_a_missing_path_has_no_stats() {
    let path = path_of(&["nowhere.txt"]);
    let item = path.lookup(Ok(None)).unwrap();
    assert_eq!(item.path, path);
    assert_eq!(item.stats, None);
    assert_eq!(path.get_file_stat(Ok(None)), Ok(None));
}

#[test]
fn lookup_of_an_existing_path_carries_its_stats() {
    let path = path_of(&["file1.txt"]);
    let stat = FileStat {
        size: 7,
        mtime: "2018-01-26T18:30:09.453Z".to_string(),
        is_directory: false,
        sha256: None,
    };
    let item = path.lookup(Ok(Some(stat.clone()))).unwrap();
    assert_eq!(item.path, path);
    assert_eq!(item.stats, Some(stat));
}

#[test]
fn lookup_reports_unreadable_metadata() {
    let path = path_of(&["file1.txt"]);
    let r = path.lookup(Err("permission denied".to_string()));
    assert_eq!(
        r,
        Err(Error::ReadError {
            what: "metadata".to_string(),
            how: "permission denied".to_string()
        })
    );
}

#[test]
fn equality_is_by_components() {
    assert_eq!(path_of(&["a", "b"]), path_of(&["a", "b"]));
    assert_ne!(path_of(&["a", "b"]), path_of(&["a"]));
    assert_ne!(path_of(&["a", "b"]), path_of(&["a", "c"]));
    assert_ne!(path_of(&["a", "b"]), path_of(&["b", "a"]));
    assert_ne!(path_of(&["ab"]), path_of(&["a", "b"]));
    assert_eq!(PortablePath::root(), PortablePath::root());
}

#[test]
fn order_is_by_components() {
    let a_b = path_of(&["a", "b"]);
    let a_b_c = path_of(&["a", "b", "c"]);
    let b = path_of(&["b"]);
    assert!(PortablePath::root() < a_b);
    assert!(a_b < a_b_c);
    assert!(a_b_c < b);
    assert!(b > a_b);
    assert!(path_of(&["a", "c"]) < path_of(&["a b"]));
    assert!(path_of(&["B"]) < path_of(&["a"]));
    assert!(path_of(&["a"]) < path_of(&["é"]));
    assert_eq!(a_b.partial_cmp(&a_b), Some(Ordering::Equal));
    assert_eq!(a_b.partial_cmp(&b), Some(Ordering::Less));
    assert_eq!(b.partial_cmp(&a_b), Some(Ordering::Greater));
    assert!(portable_fs::portable_path::is_path_before(&a_b, &b));
    assert!(!portable_fs::portable_path::is_path_before(&b, &b));
}
