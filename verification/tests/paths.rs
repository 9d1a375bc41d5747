use tubemin::paths::{extension, file_name, file_stem, join, with_extension};

#[test]
fn file_name_of_paths() {
    assert_eq!(file_name("/downloads/video.mp4"), Some("video.mp4".to_string()));
    assert_eq!(file_name("/downloads/dir/"), Some("dir".to_string()));
    assert_eq!(file_name("/downloads/.."), None);
    assert_eq!(file_name("/"), None);
    assert_eq!(file_name("a/./"), Some("a".to_string()));
}

#[test]
fn stem_and_extension() {
    assert_eq!(file_stem("/d/video.info.json"), Some("video.info".to_string()));
    assert_eq!(extension("/d/video.info.json"), Some("json".to_string()));
    assert_eq!(file_stem("/d/.hidden"), Some(".hidden".to_string()));
    assert_eq!(extension("/d/.hidden"), None);
    assert_eq!(extension("/d/file."), Some(String::new()));
    assert_eq!(extension("/d/noext"), None);
}

#[test]
fn with_extension_replaces_last_extension() {
    assert_eq!(with_extension("/d/video.mp4", "info.json"), "/d/video.info.json");
    assert_eq!(with_extension("/d/video", "jpg"), "/d/video.jpg");
    assert_eq!(with_extension("/d/video.tar.gz", "zip"), "/d/video.tar.zip");
}

#[test]
fn join_adds_separator_or_replaces() {
    assert_eq!(join("/d", "a.mp4"), "/d/a.mp4");
    assert_eq!(join("/d/", "a.mp4"), "/d/a.mp4");
    assert_eq!(join("/d", "/abs"), "/abs");
    assert_eq!(join("", "a"), "a");
}
