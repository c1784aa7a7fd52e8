use sync_client::models::SyncChange;
use sync_client::models::Task;
use sync_client::selection::{deselected_paths, exclude_rule_text};
use sync_client::task_run::selective_job_request;

fn scanned(id: i64, path: &str, selected: bool) -> SyncChange {
    SyncChange {
        id,
        log_id: 2,
        file_path: path.to_string(),
        change_type: "added".to_string(),
        side: None,
        local_size: None,
        remote_size: None,
        local_modtime: None,
        remote_modtime: None,
        is_selected: selected,
        resolved_by: None,
    }
}

#[test]
fn exclusion_rules_name_the_path_literally() {
    assert_eq!(exclude_rule_text("docs/readme.md"), "- /docs/readme.md");
    assert_eq!(exclude_rule_text("a?b{c}"), "- /a\\?b\\{c\\}");
    assert_eq!(exclude_rule_text("back\\slash"), "- /back\\\\slash");
    assert_eq!(exclude_rule_text(""), "- /");
    assert_ne!(exclude_rule_text("a*"), exclude_rule_text("a\\*"));
}

#[test]
fn only_deselected_changes_are_left_out_in_order() {
    let changes = vec![
        scanned(1, "keep.txt", true),
        scanned(2, "skip/one.txt", false),
        scanned(3, "also-keep", true),
        scanned(4, "skip-two", false),
    ];
    assert_eq!(deselected_paths(&changes), vec!["skip/one.txt".to_string(), "skip-two".to_string()]);
    assert!(deselected_paths(&vec![scanned(1, "x", true)]).is_empty());
    assert!(deselected_paths(&vec![]).is_empty());
}

fn task(direction: &str) -> Task {
    Task {
        id: 9,
        name: "t".to_string(),
        local_path: "/home/u/d".to_string(),
        remote_name: "r".to_string(),
        remote_path: "b".to_string(),
        direction: direction.to_string(),
        filters: None,
        conflict_policy: "newer".to_string(),
        auto_sync: false,
        sync_interval: None,
        is_enabled: true,
        last_sync_at: None,
        created_at: String::new(),
        updated_at: String::new(),
    }
}

#[test]
fn the_job_after_a_scan_keeps_out_exactly_the_deselected_changes() {
    let changes = vec![
        scanned(1, "keep.txt", true),
        scanned(2, "skip me.txt", false),
        scanned(3, "data[1].csv", false),
    ];
    let r = selective_job_request(&task("upload"), &changes).unwrap();
    assert_eq!(r.endpoint, "sync/sync");
    let rules: Vec<String> = r
        .params
        .get("_filter")
        .unwrap()
        .get("FilterRule")
        .unwrap()
        .as_array()
        .unwrap()
        .iter()
        .map(|v| v.as_str().unwrap().clone())
        .collect();
    assert_eq!(rules, vec!["- /skip me.txt".to_string(), "- /data\\[1\\].csv".to_string()]);
    assert!(!rules.contains(&exclude_rule_text("keep.txt")));
    let all_kept = selective_job_request(&task("bisync"), &vec![scanned(1, "keep.txt", true)]).unwrap();
    assert!(all_kept.params.get("_filter").is_none());
    assert_eq!(selective_job_request(&task("sideways"), &changes).err(), Some("Invalid direction".to_string()));
}
