use portable_fs::Error;

fn pair(what: &str, how: &str) -> (String, String) {
    (what.to_string(), how.to_string())
}

#[test]
fn messages_of_errors_with_a_cause() {
    let (what, how) = pair("metadata", "denied");
    assert_eq!(
        Error::ReadError { what, how }.to_string(),
        "Failed to read metadata: denied"
    );
    let (what, how) = pair("parse system time", "bad input");
    assert_eq!(
        Error::ParseError { what, how }.to_string(),
        "Failed to parse parse system time: bad input"
    );
    let (what, how) = pair("dir1", "full");
    assert_eq!(
        Error::CreateFailed { what, how }.to_string(),
        "Failed to create dir1: full"
    );
    let (what, how) = pair("/r/a", "full");
    assert_eq!(
        Error::WriteFailed { what, how }.to_string(),
        "Failed to write /r/a: full"
    );
    let (what, how) = pair("/r/a", "busy");
    assert_eq!(
        Error::DeleteFailed { what, how }.to_string(),
        "Failed to delete /r/a: busy"
    );
    let (what, how) = pair("walk", "stopped");
    assert_eq!(
        Error::SyncFailed { what, how }.to_string(),
        "Sync failed walk: stopped"
    );
}

#[test]
fn messages_of_errors_with_one_text() {
    assert_eq!(
        Error::InvalidArgument("File does not exist".to_string()).to_string(),
        "Invalid argument: File does not exist"
    );
    assert_eq!(
        Error::FileExists("/r/a".to_string()).to_string(),
        "File already exists: /r/a"
    );
    assert_eq!(
        Error::InvalidPath {
            what: "a/b".to_string()
        }
        .to_string(),
        "Invalid path: a/b"
    );
}
