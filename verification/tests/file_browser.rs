use sync_client::browse::{sort_for_browsing, text_less};
use sync_client::models::RemoteFile;
use sync_client::transfers::{
    create_folder_request, delete_item_request, plan_download, plan_upload, transfer_result,
};

fn f(name: &str, is_dir: bool) -> RemoteFile {
    RemoteFile { name: name.to_string(), path: name.to_string(), is_dir, size: 0, mod_time: String::new() }
}

#[test]
fn browser_order_directories_first_case_insensitive() {
    let files = vec![f("b.txt", false), f("Zeta", true), f("A.txt", false), f("alpha", true), f("c", false)];
    let names: Vec<String> = sort_for_browsing(files).into_iter().map(|x| x.name).collect();
    assert_eq!(names, vec!["alpha", "Zeta", "A.txt", "b.txt", "c"]);
}

#[test]
fn browser_order_is_stable() {
    let mut a1 = f("Readme", false);
    a1.path = "first".to_string();
    let mut a2 = f("README", false);
    a2.path = "second".to_string();
    let mut a3 = f("readme", false);
    a3.path = "third".to_string();
    let out = sort_for_browsing(vec![a1, f("a", false), a2, a3]);
    let paths: Vec<String> = out.into_iter().map(|x| x.path).collect();
    assert_eq!(paths, vec!["a", "first", "second", "third"]);
}

#[test]
fn string_order() {
    assert!(text_less("a", "b"));
    assert!(text_less("ab", "abc"));
    assert!(!text_less("abc", "ab"));
    assert!(!text_less("x", "x"));
    assert!(text_less("Z", "a"));
    assert!(text_less("z", "é"));
}

#[test]
fn upload_plan() {
    let p = plan_upload("/home/u/notes/todo.md", "gd", "docs/").unwrap();
    assert_eq!(p.src_fs, "/home/u/notes");
    assert_eq!(p.src_remote, "todo.md");
    assert_eq!(p.dst_fs, "gd:");
    assert_eq!(p.dst_remote, "docs/todo.md");
    let p = plan_upload("todo.md", "gd", "/").unwrap();
    assert_eq!(p.src_fs, "");
    assert_eq!(p.dst_remote, "todo.md");
}

#[test]
fn upload_plan_refuses_path_without_name() {
    let r = plan_upload("/", "gd", "").unwrap_err();
    assert!(!r.success);
    assert_eq!(r.path, "/");
    assert_eq!(r.error.as_deref(), Some("Invalid file path"));
    let r = plan_upload("a/..", "gd", "").unwrap_err();
    assert_eq!(r.error.as_deref(), Some("Invalid file path"));
}

#[test]
fn download_plan() {
    let p = plan_download("gd", "docs/todo.md", "/tmp/in");
    assert_eq!(p.src_fs, "gd:");
    assert_eq!(p.src_remote, "docs/todo.md");
    assert_eq!(p.dst_fs, "/tmp/in");
    assert_eq!(p.dst_remote, "todo.md");
    let p = plan_download("gd", "..", "/tmp/in");
    assert_eq!(p.dst_remote, "..");
}

#[test]
fn transfer_results() {
    let ok = transfer_result("a", Ok(()));
    assert!(ok.success);
    assert_eq!(ok.error, None);
    let bad = transfer_result("b", Err("denied".to_string()));
    assert!(!bad.success);
    assert_eq!(bad.path, "b");
    assert_eq!(bad.error.as_deref(), Some("denied"));
}

#[test]
fn delete_and_mkdir_calls() {
    let r = delete_item_request("gd", "old", true);
    assert_eq!(r.endpoint, "operations/purge");
    assert_eq!(r.params.get("fs").unwrap().as_str().unwrap(), "gd:");
    let r = delete_item_request("gd", "old.txt", false);
    assert_eq!(r.endpoint, "operations/deletefile");
    assert_eq!(r.params.get("remote").unwrap().as_str().unwrap(), "old.txt");
    let r = create_folder_request("gd", "a/b/", "new");
    assert_eq!(r.endpoint, "operations/mkdir");
    assert_eq!(r.params.get("remote").unwrap().as_str().unwrap(), "a/b/new");
    let r = create_folder_request("gd", "", "new");
    assert_eq!(r.params.get("remote").unwrap().as_str().unwrap(), "new");
}

#[test]
fn plans_from_the_name_and_parent_read() {
    let p = sync_client::transfers::plan_upload_from(
        "/home/u/a.txt",
        "gd",
        "inbox",
        Some("a.txt".to_string()),
        Some("/home/u".to_string()),
    )
    .unwrap();
    assert_eq!((p.src_fs.as_str(), p.src_remote.as_str(), p.dst_fs.as_str(), p.dst_remote.as_str()), ("/home/u", "a.txt", "gd:", "inbox/a.txt"));
    let e = sync_client::transfers::plan_upload_from("/x", "gd", "", None, Some("/".to_string())).unwrap_err();
    assert_eq!((e.success, e.path.as_str(), e.error.as_deref()), (false, "/x", Some("Invalid file path")));
    let e = sync_client::transfers::plan_upload_from("/x", "gd", "", Some("x".to_string()), None).unwrap_err();
    assert_eq!(e.error.as_deref(), Some("Cannot determine parent directory"));
    let d = sync_client::transfers::plan_download_from("gd", "docs/r.pdf", "/tmp", Some("r.pdf".to_string()));
    assert_eq!((d.src_fs.as_str(), d.src_remote.as_str(), d.dst_fs.as_str(), d.dst_remote.as_str()), ("gd:", "docs/r.pdf", "/tmp", "r.pdf"));
    let d = sync_client::transfers::plan_download_from("gd", "weird", "/tmp", None);
    assert_eq!(d.dst_remote, "weird");
}

#[test]
fn entries_are_ordered_by_the_keys_given() {
    let files = vec![f("x", false), f("y", true), f("z", false), f("w", true)];
    let keys = vec!["2".to_string(), "9".to_string(), "1".to_string(), "3".to_string()];
    let names: Vec<String> =
        sync_client::browse::sort_by_keys(files, keys).into_iter().map(|x| x.name).collect();
    assert_eq!(names, vec!["w", "y", "z", "x"]);
}
