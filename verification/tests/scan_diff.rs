use sync_client::diff::{compute_changes, parse_direction, scan_endpoints, Direction};
use sync_client::filemap::FileMap;
use sync_client::models::{FileEntry, NewSyncChange, Task};

fn task(direction: &str) -> Task {
    Task {
        id: 7,
        name: "docs".to_string(),
        local_path: "/home/u/docs".to_string(),
        remote_name: "s3".to_string(),
        remote_path: "bucket/docs".to_string(),
        direction: direction.to_string(),
        filters: None,
        conflict_policy: "newer".to_string(),
        auto_sync: false,
        sync_interval: None,
        is_enabled: true,
        last_sync_at: None,
        created_at: "2024-01-01 00:00:00".to_string(),
        updated_at: "2024-01-01 00:00:00".to_string(),
    }
}

fn map(entries: &[(&str, i64, Option<i64>)]) -> FileMap {
    let mut m = FileMap::new();
    for (p, size, t) in entries {
        m.insert(p.to_string(), FileEntry { size: *size, mod_time: *t });
    }
    m
}

fn find<'a>(changes: &'a [NewSyncChange], path: &str) -> &'a NewSyncChange {
    changes.iter().find(|c| c.file_path == path).expect("change for path")
}

#[test]
fn directions_are_parsed() {
    assert_eq!(parse_direction("upload"), Some(Direction::Upload));
    assert_eq!(parse_direction("download"), Some(Direction::Download));
    assert_eq!(parse_direction("bisync"), Some(Direction::Bisync));
    assert_eq!(parse_direction("Upload"), None);
}

#[test]
fn scan_endpoints_by_direction() {
    let (d, src, dst) = scan_endpoints(&task("upload")).unwrap();
    assert_eq!(d, Direction::Upload);
    assert_eq!(src, "/home/u/docs");
    assert_eq!(dst, "s3:bucket/docs");
    let (d, src, dst) = scan_endpoints(&task("download")).unwrap();
    assert_eq!(d, Direction::Download);
    assert_eq!(src, "s3:bucket/docs");
    assert_eq!(dst, "/home/u/docs");
    let (d, src, dst) = scan_endpoints(&task("bisync")).unwrap();
    assert_eq!(d, Direction::Bisync);
    assert_eq!(src, "/home/u/docs");
    assert_eq!(dst, "s3:bucket/docs");
}

#[test]
fn scan_endpoints_refuses_unknown_direction() {
    assert_eq!(scan_endpoints(&task("sideways")).unwrap_err(), "Invalid direction");
}

#[test]
fn upload_scan_classifies_files() {
    let src = map(&[("a.txt", 10, Some(100)), ("b.txt", 5, Some(1)), ("same.txt", 3, Some(9))]);
    let dst = map(&[("b.txt", 6, Some(1)), ("c.txt", 1, None), ("same.txt", 3, Some(9))]);
    let changes = compute_changes(Direction::Upload, 42, &src, &dst);
    assert_eq!(changes.len(), 3);
    assert_eq!(changes[0].file_path, "a.txt");
    assert_eq!(changes[1].file_path, "c.txt");
    assert_eq!(changes[2].file_path, "b.txt");
    let a = find(&changes, "a.txt");
    assert_eq!(a.log_id, 42);
    assert_eq!(a.change_type, "added");
    assert_eq!(a.side.as_deref(), Some("local"));
    assert_eq!((a.local_size, a.remote_size), (Some(10), None));
    assert_eq!((a.local_modtime, a.remote_modtime), (Some(100), None));
    let c = find(&changes, "c.txt");
    assert_eq!(c.change_type, "deleted");
    assert_eq!(c.side.as_deref(), Some("remote"));
    assert_eq!((c.local_size, c.remote_size), (None, Some(1)));
    assert_eq!((c.local_modtime, c.remote_modtime), (None, None));
    let b = find(&changes, "b.txt");
    assert_eq!(b.change_type, "modified");
    assert_eq!(b.side, None);
    assert_eq!((b.local_size, b.remote_size), (Some(5), Some(6)));
    assert_eq!((b.local_modtime, b.remote_modtime), (Some(1), Some(1)));
}

#[test]
fn download_scan_swaps_sides() {
    let src = map(&[("a.txt", 10, Some(100)), ("b.txt", 5, Some(2))]);
    let dst = map(&[("b.txt", 6, Some(1)), ("c.txt", 1, Some(3))]);
    let changes = compute_changes(Direction::Download, 1, &src, &dst);
    let a = find(&changes, "a.txt");
    assert_eq!(a.change_type, "added");
    assert_eq!(a.side.as_deref(), Some("remote"));
    assert_eq!((a.local_size, a.remote_size), (None, Some(10)));
    assert_eq!((a.local_modtime, a.remote_modtime), (None, Some(100)));
    let c = find(&changes, "c.txt");
    assert_eq!(c.change_type, "deleted");
    assert_eq!(c.side.as_deref(), Some("local"));
    assert_eq!((c.local_size, c.remote_size), (Some(1), None));
    assert_eq!((c.local_modtime, c.remote_modtime), (Some(3), None));
    let b = find(&changes, "b.txt");
    assert_eq!(b.change_type, "modified");
    assert_eq!(b.side, None);
    assert_eq!((b.local_size, b.remote_size), (Some(6), Some(5)));
    assert_eq!((b.local_modtime, b.remote_modtime), (Some(1), Some(2)));
}

#[test]
fn bisync_conflict_and_newer_side() {
    let src = map(&[
        ("conflict", 1, Some(10)),
        ("local_newer", 1, Some(20)),
        ("remote_newer", 1, Some(5)),
        ("size_only", 1, Some(7)),
        ("unknown_time", 1, None),
    ]);
    let dst = map(&[
        ("conflict", 2, Some(11)),
        ("local_newer", 1, Some(10)),
        ("remote_newer", 1, Some(6)),
        ("size_only", 2, Some(7)),
        ("unknown_time", 2, Some(4)),
    ]);
    let changes = compute_changes(Direction::Bisync, 3, &src, &dst);
    assert_eq!(changes.len(), 5);
    let c = find(&changes, "conflict");
    assert_eq!(c.change_type, "conflict");
    assert_eq!(c.side, None);
    let l = find(&changes, "local_newer");
    assert_eq!(l.change_type, "modified");
    assert_eq!(l.side.as_deref(), Some("local"));
    let r = find(&changes, "remote_newer");
    assert_eq!(r.change_type, "modified");
    assert_eq!(r.side.as_deref(), Some("remote"));
    let s = find(&changes, "size_only");
    assert_eq!(s.change_type, "modified");
    assert_eq!(s.side, None);
    // An unknown time reads as zero: no conflict, the remote side is newer.
    let u = find(&changes, "unknown_time");
    assert_eq!(u.change_type, "modified");
    assert_eq!(u.side.as_deref(), Some("remote"));
    assert_eq!((u.local_modtime, u.remote_modtime), (None, Some(4)));
}

#[test]
fn equal_listings_yield_no_change() {
    let src = map(&[("a", 1, Some(1)), ("b/c", 2, None)]);
    let dst = map(&[("b/c", 2, None), ("a", 1, Some(1))]);
    for d in [Direction::Upload, Direction::Download, Direction::Bisync] {
        assert!(compute_changes(d, 9, &src, &dst).is_empty());
    }
}

#[test]
fn one_change_per_file() {
    let src = map(&[("x", 1, Some(1)), ("y", 2, Some(2)), ("z", 3, Some(3))]);
    let dst = map(&[("y", 9, Some(2)), ("w", 1, Some(1)), ("z", 3, Some(4))]);
    let changes = compute_changes(Direction::Bisync, 1, &src, &dst);
    let mut paths: Vec<&str> = changes.iter().map(|c| c.file_path.as_str()).collect();
    paths.sort();
    assert_eq!(paths, vec!["w", "x", "y", "z"]);
}

#[test]
fn file_map_insert_replaces() {
    let mut m = FileMap::new();
    m.insert("a".to_string(), FileEntry { size: 1, mod_time: None });
    m.insert("b".to_string(), FileEntry { size: 2, mod_time: None });
    m.insert("a".to_string(), FileEntry { size: 3, mod_time: Some(5) });
    assert_eq!(m.len(), 2);
    assert_eq!(m.get("a"), Some(FileEntry { size: 3, mod_time: Some(5) }));
    assert!(m.contains("b"));
    assert!(!m.contains("c"));
    assert_eq!(m.path_at(0), "a");
    assert_eq!(m.entry_at(1), FileEntry { size: 2, mod_time: None });
}

fn other(side: &Option<String>) -> Option<String> {
    match side.as_deref() {
        Some("local") => Some("remote".to_string()),
        Some("remote") => Some("local".to_string()),
        other => other.map(|s| s.to_string()),
    }
}

#[test]
fn download_scan_mirrors_upload_scan() {
    let src = map(&[("a", 1, Some(1)), ("b", 2, Some(2)), ("c", 3, None)]);
    let dst = map(&[("b", 5, Some(2)), ("d", 4, Some(4)), ("c", 3, None)]);
    let up = compute_changes(Direction::Upload, 2, &src, &dst);
    let down = compute_changes(Direction::Download, 2, &src, &dst);
    assert_eq!(up.len(), down.len());
    for (u, d) in up.iter().zip(down.iter()) {
        assert_eq!(u.file_path, d.file_path);
        assert_eq!(u.change_type, d.change_type);
        assert_eq!(other(&u.side), d.side);
        assert_eq!((u.local_size, u.remote_size), (d.remote_size, d.local_size));
        assert_eq!((u.local_modtime, u.remote_modtime), (d.remote_modtime, d.local_modtime));
    }
}

#[test]
fn scan_log_counts_each_kind_of_change() {
    let src = map(&[("new", 1, Some(10)), ("both-size", 2, Some(20)), ("same", 3, Some(30)), ("clash", 4, Some(40))]);
    let dst = map(&[("gone", 5, Some(50)), ("both-size", 9, Some(20)), ("same", 3, Some(30)), ("clash", 8, Some(41))]);
    let changes = compute_changes(Direction::Bisync, 1, &src, &dst);
    let log = sync_client::task_run::scan_summary(&changes);
    assert_eq!((log.total_files, log.added_count, log.modified_count, log.deleted_count), (4, 1, 2, 1));
    assert_eq!(log.added_count + log.modified_count + log.deleted_count, log.total_files);
    assert_eq!(find(&changes, "clash").change_type, "conflict");
    assert_eq!(find(&changes, "both-size").change_type, "modified");
}

#[test]
fn scan_outcome_pairs_changes_with_their_log() {
    let src = map(&[("new", 1, Some(10)), ("changed", 2, Some(20)), ("same", 3, Some(30))]);
    let dst = map(&[("gone", 5, Some(50)), ("changed", 9, Some(20)), ("same", 3, Some(30))]);
    let (changes, log) = sync_client::task_run::scan_outcome(Direction::Upload, 12, &src, &dst).unwrap();
    assert_eq!(changes.len(), 3);
    assert!(changes.iter().all(|c| c.log_id == 12));
    assert_eq!(find(&changes, "new").change_type, "added");
    assert_eq!(find(&changes, "gone").change_type, "deleted");
    assert_eq!(find(&changes, "changed").change_type, "modified");
    assert_eq!(log.status, "completed");
    assert_eq!(
        (log.total_files, log.added_count, log.modified_count, log.deleted_count, log.transferred_bytes, log.error_count),
        (3, 1, 1, 1, 0, 0)
    );
}
