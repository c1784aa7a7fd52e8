use sync_client::models::RemoteConfig;
use sync_client::rc_api::{
    bisync_request, create_remote_request, delete_remote_request, get_remote_config_request,
    health_check_request, job_status_request, list_dir_request, list_remote_files_request,
    list_remotes_request, stop_job_request, sync_download_request, sync_upload_request,
    test_connection_request, version_request, RcRequest,
};
use sync_client::rc_reply::{
    connection_outcome, daemon_status, jobid_from_reply, remote_files_from_reply,
    remotes_from_reply, version_from_reply,
};
use sync_client::rc_value::RcValue;

fn s(t: &str) -> RcValue {
    RcValue::Str(t.to_string())
}

fn obj(members: Vec<(&str, RcValue)>) -> RcValue {
    RcValue::Object(members.into_iter().map(|(k, v)| (k.to_string(), v)).collect())
}

fn keys(v: &RcValue) -> Vec<String> {
    match v {
        RcValue::Object(m) => m.iter().map(|(k, _)| k.clone()).collect(),
        _ => panic!("not an object"),
    }
}

fn text_at(r: &RcRequest, key: &str) -> String {
    match r.params.get(key) {
        Some(RcValue::Str(t)) => t.clone(),
        other => panic!("no text member {key}: {other:?}"),
    }
}

#[test]
fn empty_calls() {
    assert_eq!(health_check_request().endpoint, "rc/noop");
    assert_eq!(version_request().endpoint, "core/version");
    let r = list_remotes_request();
    assert_eq!(r.endpoint, "config/listremotes");
    assert!(keys(&r.params).is_empty());
}

#[test]
fn config_calls() {
    let r = get_remote_config_request("gd");
    assert_eq!(r.endpoint, "config/get");
    assert_eq!(text_at(&r, "name"), "gd");
    let r = delete_remote_request("gd");
    assert_eq!(r.endpoint, "config/delete");
    assert_eq!(keys(&r.params), vec!["name"]);
    let cfg = RemoteConfig {
        name: "box".to_string(),
        remote_type: "s3".to_string(),
        parameters: Some(vec![
            ("provider".to_string(), "AWS".to_string()),
            ("region".to_string(), "eu".to_string()),
        ]),
    };
    let r = create_remote_request(&cfg);
    assert_eq!(r.endpoint, "config/create");
    assert_eq!(keys(&r.params), vec!["name", "type", "parameters"]);
    assert_eq!(text_at(&r, "type"), "s3");
    let p = r.params.get("parameters").unwrap();
    assert_eq!(keys(p), vec!["provider", "region"]);
    assert_eq!(p.get("region").unwrap().as_str().unwrap(), "eu");
    let bare = RemoteConfig { name: "x".to_string(), remote_type: "local".to_string(), parameters: None };
    let r = create_remote_request(&bare);
    assert!(keys(r.params.get("parameters").unwrap()).is_empty());
}

#[test]
fn listing_calls() {
    let r = test_connection_request("gd");
    assert_eq!(r.endpoint, "operations/list");
    assert_eq!(text_at(&r, "fs"), "gd:");
    assert_eq!(text_at(&r, "remote"), "");
    let r = list_remote_files_request("gd", "photos/2024");
    assert_eq!(text_at(&r, "fs"), "gd:");
    assert_eq!(text_at(&r, "remote"), "photos/2024");
    let r = list_dir_request("/home/u", "sub");
    assert_eq!(keys(&r.params), vec!["fs", "remote"]);
    assert_eq!(text_at(&r, "fs"), "/home/u");
}

#[test]
fn sync_calls() {
    let r = sync_upload_request("/l", "s3", "b/p", None);
    assert_eq!(r.endpoint, "sync/sync");
    assert_eq!(keys(&r.params), vec!["srcFs", "dstFs", "_async"]);
    assert_eq!(text_at(&r, "srcFs"), "/l");
    assert_eq!(text_at(&r, "dstFs"), "s3:b/p");
    assert_eq!(r.params.get("_async").unwrap().as_bool(), Some(true));
    let r = sync_download_request("s3", "b/p", "/l", Some("- *.tmp"));
    assert_eq!(keys(&r.params), vec!["srcFs", "dstFs", "_async", "filters"]);
    assert_eq!(text_at(&r, "srcFs"), "s3:b/p");
    assert_eq!(text_at(&r, "dstFs"), "/l");
    let f = r.params.get("filters").unwrap();
    assert_eq!(f.get("filter").unwrap().as_str().unwrap(), "- *.tmp");
    let r = bisync_request("/l", "s3", "b", false, "newer", None);
    assert_eq!(r.endpoint, "sync/bisync");
    assert_eq!(keys(&r.params), vec!["path1", "path2", "resync", "conflictResolve", "_async"]);
    assert_eq!(text_at(&r, "path2"), "s3:b");
    assert_eq!(r.params.get("resync").unwrap().as_bool(), Some(false));
    assert_eq!(text_at(&r, "conflictResolve"), "newer");
}

#[test]
fn job_calls() {
    let r = job_status_request(12);
    assert_eq!(r.endpoint, "job/status");
    assert_eq!(r.params.get("jobid").unwrap().as_i64(), Some(12));
    assert_eq!(stop_job_request(3).endpoint, "job/stop");
}

#[test]
fn remotes_are_read_from_reply() {
    let resp = obj(vec![("remotes", RcValue::Array(vec![s("gd"), RcValue::Int(3), s("s3")]))]);
    assert_eq!(remotes_from_reply(&resp), vec!["gd".to_string(), "s3".to_string()]);
    assert!(remotes_from_reply(&obj(vec![])).is_empty());
    assert!(remotes_from_reply(&obj(vec![("remotes", s("gd"))])).is_empty());
}

#[test]
fn remote_files_are_read_from_reply() {
    let full = obj(vec![
        ("Name", s("a.txt")),
        ("Path", s("d/a.txt")),
        ("IsDir", RcValue::Bool(false)),
        ("Size", RcValue::Int(12)),
        ("ModTime", s("2024-01-01T00:00:00Z")),
    ]);
    let odd = obj(vec![
        ("Name", s("d")),
        ("Path", s("d")),
        ("IsDir", s("yes")),
        ("Size", RcValue::Float),
        ("ModTime", RcValue::Null),
    ]);
    let missing = obj(vec![("Name", s("m")), ("Path", s("m")), ("IsDir", RcValue::Bool(true))]);
    let resp = obj(vec![("list", RcValue::Array(vec![full, missing, odd]))]);
    let files = remote_files_from_reply(&resp);
    assert_eq!(files.len(), 2);
    assert_eq!(files[0].name, "a.txt");
    assert_eq!(files[0].path, "d/a.txt");
    assert!(!files[0].is_dir);
    assert_eq!(files[0].size, 12);
    assert_eq!(files[0].mod_time, "2024-01-01T00:00:00Z");
    assert_eq!(files[1].name, "d");
    assert!(!files[1].is_dir);
    assert_eq!(files[1].size, 0);
    assert_eq!(files[1].mod_time, "");
}

#[test]
fn jobid_is_read_or_refused() {
    assert_eq!(jobid_from_reply(&obj(vec![("jobid", RcValue::Int(5))])), Ok(5));
    assert_eq!(jobid_from_reply(&obj(vec![("jobid", RcValue::UInt(6))])), Ok(6));
    assert_eq!(
        jobid_from_reply(&obj(vec![("jobid", s("5"))])),
        Err("No jobid in response".to_string())
    );
    assert_eq!(
        jobid_from_reply(&obj(vec![("jobid", RcValue::UInt(u64::MAX))])),
        Err("No jobid in response".to_string())
    );
}

#[test]
fn version_and_status() {
    let v = obj(vec![("version", s("v1.68.0"))]);
    assert_eq!(version_from_reply(&v), Some("v1.68.0".to_string()));
    assert_eq!(version_from_reply(&obj(vec![])), None);
    assert_eq!(daemon_status(true, Some(&v)), (true, Some("v1.68.0".to_string())));
    assert_eq!(daemon_status(true, None), (false, None));
    assert_eq!(daemon_status(false, Some(&v)), (false, None));
}

#[test]
fn connection_test_outcome() {
    assert_eq!(connection_outcome(None), (true, "Connection successful".to_string()));
    assert_eq!(connection_outcome(Some("boom".to_string())), (false, "boom".to_string()));
}

#[test]
fn object_lookup_takes_first_member() {
    let v = obj(vec![("k", RcValue::Int(1)), ("k", RcValue::Int(2))]);
    assert_eq!(v.get("k").unwrap().as_i64(), Some(1));
    assert!(RcValue::Int(1).get("k").is_none());
}
