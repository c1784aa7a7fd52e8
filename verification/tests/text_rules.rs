use sync_client::text::{is_root, join_remote_path, remote_fs_string, text_eq, trim_slashes_end};

#[test]
fn join_at_root_keeps_name() {
    assert_eq!(join_remote_path("", "a.txt"), "a.txt");
    assert_eq!(join_remote_path("/", "a.txt"), "a.txt");
}

#[test]
fn join_trims_trailing_slashes() {
    assert_eq!(join_remote_path("docs", "a.txt"), "docs/a.txt");
    assert_eq!(join_remote_path("docs//", "a.txt"), "docs/a.txt");
    assert_eq!(join_remote_path("//", "a.txt"), "/a.txt");
}

#[test]
fn trim_removes_only_trailing_slashes() {
    assert_eq!(trim_slashes_end("/a/b//"), "/a/b");
    assert_eq!(trim_slashes_end("///"), "");
    assert_eq!(trim_slashes_end("abc"), "abc");
}

#[test]
fn root_directory_detection() {
    assert!(is_root(""));
    assert!(is_root("/"));
    assert!(!is_root("//"));
    assert!(!is_root("a"));
}

#[test]
fn remote_fs_names_remote_and_path() {
    assert_eq!(remote_fs_string("s3", "bucket/dir"), "s3:bucket/dir");
    assert_eq!(remote_fs_string("gd", ""), "gd:");
}

#[test]
fn text_equality() {
    assert!(text_eq("héllo", "héllo"));
    assert!(!text_eq("a", "ab"));
}
