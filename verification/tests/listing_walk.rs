use sync_client::listing::{parse_iso8601_to_unix, ListingWalk};
use sync_client::models::FileEntry;
use sync_client::rc_value::RcValue;

fn s(t: &str) -> RcValue {
    RcValue::Str(t.to_string())
}

fn item(name: &str, is_dir: bool, size: i64, mod_time: &str) -> RcValue {
    RcValue::Object(vec![
        ("Path".to_string(), s(name)),
        ("Name".to_string(), s(name)),
        ("IsDir".to_string(), RcValue::Bool(is_dir)),
        ("Size".to_string(), RcValue::Int(size)),
        ("ModTime".to_string(), s(mod_time)),
    ])
}

fn reply(items: Vec<RcValue>) -> RcValue {
    RcValue::Object(vec![("list".to_string(), RcValue::Array(items))])
}

#[test]
fn iso8601_forms_are_read() {
    assert_eq!(parse_iso8601_to_unix("2024-01-01T00:00:00Z"), Some(1704067200));
    assert_eq!(parse_iso8601_to_unix("2024-01-01T08:00:00+08:00"), Some(1704067200));
    assert_eq!(parse_iso8601_to_unix("2024-01-01T00:00:01.250Z"), Some(1704067201));
    assert_eq!(parse_iso8601_to_unix("not a time"), None);
    assert_eq!(parse_iso8601_to_unix(""), None);
}

#[test]
fn walk_lists_recursively() {
    let mut walk = ListingWalk::new();
    assert_eq!(walk.next_directory(), Some(String::new()));
    walk.absorb(&reply(vec![
        item("sub", true, -1, ""),
        item("top.txt", false, 4, "2024-01-01T00:00:00Z"),
    ]));
    assert_eq!(walk.next_directory(), Some("sub".to_string()));
    walk.absorb(&reply(vec![item("deep", true, 0, ""), item("a.bin", false, 9, "bad")]));
    assert_eq!(walk.next_directory(), Some("sub/deep".to_string()));
    walk.absorb(&reply(vec![item("z", false, 1, "2024-01-01T00:00:01Z")]));
    assert_eq!(walk.next_directory(), None);
    let files = walk.into_files();
    assert_eq!(files.len(), 3);
    assert_eq!(files.get("top.txt"), Some(FileEntry { size: 4, mod_time: Some(1704067200) }));
    assert_eq!(files.get("sub/a.bin"), Some(FileEntry { size: 9, mod_time: None }));
    assert_eq!(files.get("sub/deep/z"), Some(FileEntry { size: 1, mod_time: Some(1704067201) }));
}

#[test]
fn walk_reads_missing_members_as_defaults() {
    let mut walk = ListingWalk::new();
    walk.next_directory();
    let bare = RcValue::Object(vec![("Name".to_string(), s("n"))]);
    walk.absorb(&reply(vec![bare]));
    walk.absorb(&RcValue::Object(vec![]));
    assert_eq!(walk.next_directory(), None);
    let files = walk.into_files();
    assert_eq!(files.get("n"), Some(FileEntry { size: 0, mod_time: None }));
}

#[test]
fn later_entry_replaces_earlier() {
    let mut walk = ListingWalk::new();
    walk.next_directory();
    walk.absorb(&reply(vec![item("f", false, 1, ""), item("f", false, 2, "")]));
    let files = walk.into_files();
    assert_eq!(files.len(), 1);
    assert_eq!(files.get("f").unwrap().size, 2);
}

#[test]
fn a_directory_is_handed_out_until_its_listing_is_taken_in() {
    let mut walk = ListingWalk::new();
    assert_eq!(walk.next_directory(), Some(String::new()));
    assert_eq!(walk.next_directory(), Some(String::new()));
    walk.absorb(&reply(vec![item("a", true, 0, ""), item("b", true, 0, "")]));
    assert_eq!(walk.next_directory(), Some("b".to_string()));
    assert_eq!(walk.next_directory(), Some("b".to_string()));
    walk.absorb(&reply(vec![item("f", false, 3, "")]));
    walk.absorb(&reply(vec![item("ignored", false, 5, "")]));
    assert_eq!(walk.next_directory(), Some("a".to_string()));
    walk.absorb(&reply(vec![]));
    assert_eq!(walk.next_directory(), None);
    let files = walk.into_files();
    assert_eq!(files.len(), 1);
    assert_eq!(files.get("b/f"), Some(FileEntry { size: 3, mod_time: None }));
    assert_eq!(files.get("ignored"), None);
}

#[test]
fn a_listed_file_takes_the_time_read_from_it() {
    let it = item("a.txt", false, 42, "2024-01-01T00:00:00Z");
    let e = sync_client::listing::item_entry_with(&it, Some(1704067200));
    assert_eq!(e, FileEntry { size: 42, mod_time: Some(1704067200) });
    let bare = RcValue::Object(vec![("Name".to_string(), s("n"))]);
    assert_eq!(sync_client::listing::item_entry_with(&bare, None), FileEntry { size: 0, mod_time: None });
}
