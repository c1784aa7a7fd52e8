//! The requests that the client sends to rclone's remote control API and
//! what it reads from the replies.

use vstd::prelude::*;
use crate::models::RemoteConfig;
use crate::rc_value::{RcValue, push_member};
use crate::text::{remote_fs, remote_fs_string};

verus! {

/// What a member of a request object holds, as far as a contract tells.
pub enum Scalar {
    Text(Seq<char>),
    Flag(bool),
    Integer(i64),
    /// An object or an array, described apart.
    Nested,
    Other,
}

/// What `v` holds.
pub open spec fn scalar_of(v: RcValue) -> Scalar {
    match v {
        RcValue::Str(s) => Scalar::Text(s@),
        RcValue::Bool(b) => Scalar::Flag(b),
        RcValue::Int(i) => Scalar::Integer(i),
        RcValue::Object(_) => Scalar::Nested,
        RcValue::Array(_) => Scalar::Nested,
        _ => Scalar::Other,
    }
}

/// The members of an object, in order, each with what it holds; nothing for
/// any other value.
pub open spec fn members(v: RcValue) -> Seq<(Seq<char>, Scalar)> {
    match v {
        RcValue::Object(e) => e@.map_values(|m: (String, RcValue)| (m.0@, scalar_of(m.1))),
        _ => Seq::empty(),
    }
}

/// The value of the `i`-th member of an object.
pub open spec fn member_value(v: RcValue, i: int) -> RcValue {
    match v {
        RcValue::Object(e) => e@[i].1,
        _ => RcValue::Null,
    }
}

/// A call of the remote control API: the endpoint and its parameters.
pub struct RcRequest {
    pub endpoint: String,
    pub params: RcValue,
}


proof fn members_step(before: Seq<(String, RcValue)>, after: Seq<(String, RcValue)>)
    requires
        after.len() == before.len() + 1,
        after.drop_last() == before,
    ensures
        after.map_values(|m: (String, RcValue)| (m.0@, scalar_of(m.1))) == before.map_values(
            |m: (String, RcValue)| (m.0@, scalar_of(m.1)),
        ).push((after.last().0@, scalar_of(after.last().1))),
{
    assert(after.map_values(|m: (String, RcValue)| (m.0@, scalar_of(m.1))) =~= before.map_values(
        |m: (String, RcValue)| (m.0@, scalar_of(m.1)),
    ).push((after.last().0@, scalar_of(after.last().1))));
}

fn text_value(s: &str) -> (v: RcValue)
    ensures
        v == RcValue::Str(v->Str_0) && v->Str_0@ == s@,
{
    RcValue::Str(s.to_owned())
}

fn request(endpoint: &str, members: Vec<(String, RcValue)>) -> (r: RcRequest)
    ensures
        r.endpoint@ == endpoint@,
        r.params == RcValue::Object(members),
{
    RcRequest { endpoint: endpoint.to_owned(), params: RcValue::Object(members) }
}

/// An object with no member.
fn empty_request(endpoint: &str) -> (r: RcRequest)
    ensures
        r.endpoint@ == endpoint@,
        members(r.params) == Seq::<(Seq<char>, Scalar)>::empty(),
        r.params is Object,
{
    let m: Vec<(String, RcValue)> = Vec::new();
    let r = request(endpoint, m);
    assert(members(r.params) =~= Seq::<(Seq<char>, Scalar)>::empty());
    r
}

/// An object with one text member.
fn text1_request(endpoint: &str, k1: &str, v1: &str) -> (r: RcRequest)
    ensures
        r.endpoint@ == endpoint@,
        members(r.params) == seq![(k1@, Scalar::Text(v1@))],
{
    let mut m: Vec<(String, RcValue)> = Vec::new();
    let ghost m0 = m@;
    push_member(&mut m, k1, text_value(v1));
    proof {
        members_step(m0, m@);
    }
    let r = request(endpoint, m);
    assert(members(r.params) =~= seq![(k1@, Scalar::Text(v1@))]);
    r
}

/// An object with two text members.
fn text2_request(endpoint: &str, k1: &str, v1: &str, k2: &str, v2: &str) -> (r: RcRequest)
    ensures
        r.endpoint@ == endpoint@,
        members(r.params) == seq![(k1@, Scalar::Text(v1@)), (k2@, Scalar::Text(v2@))],
{
    let mut m: Vec<(String, RcValue)> = Vec::new();
    let ghost m0 = m@;
    push_member(&mut m, k1, text_value(v1));
    let ghost m1 = m@;
    proof {
        members_step(m0, m1);
    }
    push_member(&mut m, k2, text_value(v2));
    proof {
        members_step(m1, m@);
    }
    let r = request(endpoint, m);
    assert(members(r.params) =~= seq![(k1@, Scalar::Text(v1@)), (k2@, Scalar::Text(v2@))]);
    r
}

/// The no-op call with which the daemon's health is checked.
pub fn health_check_request() -> (r: RcRequest)
    ensures
        r.endpoint@ == "rc/noop"@,
        members(r.params) == Seq::<(Seq<char>, Scalar)>::empty(),
        r.params is Object,
{
    empty_request("rc/noop")
}

/// The call that asks the daemon for its version.
pub fn version_request() -> (r: RcRequest)
    ensures
        r.endpoint@ == "core/version"@,
        members(r.params) == Seq::<(Seq<char>, Scalar)>::empty(),
        r.params is Object,
{
    empty_request("core/version")
}

/// The call that lists the configured remotes.
pub fn list_remotes_request() -> (r: RcRequest)
    ensures
        r.endpoint@ == "config/listremotes"@,
        members(r.params) == Seq::<(Seq<char>, Scalar)>::empty(),
        r.params is Object,
{
    empty_request("config/listremotes")
}

/// The call that reads the configuration of the remote `name`.
pub fn get_remote_config_request(name: &str) -> (r: RcRequest)
    ensures
        r.endpoint@ == "config/get"@,
        members(r.params) == seq![("name"@, Scalar::Text(name@))],
{
    text1_request("config/get", "name", name)
}

/// The call that deletes the remote `name`.
pub fn delete_remote_request(name: &str) -> (r: RcRequest)
    ensures
        r.endpoint@ == "config/delete"@,
        members(r.params) == seq![("name"@, Scalar::Text(name@))],
{
    text1_request("config/delete", "name", name)
}

/// The parameters of a remote configuration as members: none where it has
/// no parameters.
pub open spec fn parameter_members(p: Option<Vec<(String, String)>>) -> Seq<(Seq<char>, Scalar)> {
    match p {
        Some(v) => v@.map_values(|kv: (String, String)| (kv.0@, Scalar::Text(kv.1@))),
        None => Seq::empty(),
    }
}

/// The call that creates the remote `config.name` of type
/// `config.remote_type` with its parameters (none where it has none).
pub fn create_remote_request(config: &RemoteConfig) -> (r: RcRequest)
    ensures
        r.endpoint@ == "config/create"@,
        members(r.params) == seq![
            ("name"@, Scalar::Text(config.name@)),
            ("type"@, Scalar::Text(config.remote_type@)),
            ("parameters"@, Scalar::Nested),
        ],
        members(member_value(r.params, 2)) == parameter_members(config.parameters),
{
    let mut pm: Vec<(String, RcValue)> = Vec::new();
    match &config.parameters {
        Some(params) => {
            let mut i: usize = 0;
            while i < params.len()
                invariant
                    i <= params@.len(),
                    pm@.map_values(|m: (String, RcValue)| (m.0@, scalar_of(m.1))) == params@.take(
                        i as int,
                    ).map_values(|kv: (String, String)| (kv.0@, Scalar::Text(kv.1@))),
                decreases params@.len() - i,
            {
                let ghost before = pm@;
                push_member(&mut pm, params[i].0.as_str(), text_value(params[i].1.as_str()));
                proof {
                    members_step(before, pm@);
                }
                proof {
                    assert(params@.take(i + 1) =~= params@.take(i as int).push(params@[i as int]));
                    assert(params@.take(i + 1).map_values(
                        |kv: (String, String)| (kv.0@, Scalar::Text(kv.1@)),
                    ) =~= params@.take(i as int).map_values(
                        |kv: (String, String)| (kv.0@, Scalar::Text(kv.1@)),
                    ).push((params@[i as int].0@, Scalar::Text(params@[i as int].1@))));
                }
                i = i + 1;
            }
            proof {
                assert(params@.take(params@.len() as int) =~= params@);
            }
        },
        None => {
            assert(pm@.map_values(|m: (String, RcValue)| (m.0@, scalar_of(m.1))) =~= Seq::<
                (Seq<char>, Scalar),
            >::empty());
        },
    }
    let nested = RcValue::Object(pm);
    let mut m: Vec<(String, RcValue)> = Vec::new();
    let ghost m0 = m@;
    push_member(&mut m, "name", text_value(config.name.as_str()));
    let ghost m1 = m@;
    proof {
        members_step(m0, m1);
    }
    push_member(&mut m, "type", text_value(config.remote_type.as_str()));
    let ghost m2 = m@;
    proof {
        members_step(m1, m2);
    }
    push_member(&mut m, "parameters", nested);
    proof {
        members_step(m2, m@);
    }
    let r = request("config/create", m);
    assert(members(r.params) =~= seq![
        ("name"@, Scalar::Text(config.name@)),
        ("type"@, Scalar::Text(config.remote_type@)),
        ("parameters"@, Scalar::Nested),
    ]);
    assert(member_value(r.params, 2) == nested);
    r
}

/// The call that tests a remote by listing its root.
pub fn test_connection_request(name: &str) -> (r: RcRequest)
    ensures
        r.endpoint@ == "operations/list"@,
        members(r.params) == seq![
            ("fs"@, Scalar::Text(remote_fs(name@, Seq::empty()))),
            ("remote"@, Scalar::Text(Seq::empty())),
        ],
{
    let fs = remote_fs_string(name, "");
    proof {
        reveal_strlit("");
        assert(""@ =~= Seq::<char>::empty());
        assert(remote_fs(name@, ""@) == remote_fs(name@, Seq::empty()));
    }
    text2_request("operations/list", "fs", fs.as_str(), "remote", "")
}

/// The call that lists the directory `path` of the remote `remote_name`.
pub fn list_remote_files_request(remote_name: &str, path: &str) -> (r: RcRequest)
    ensures
        r.endpoint@ == "operations/list"@,
        members(r.params) == seq![
            ("fs"@, Scalar::Text(remote_fs(remote_name@, Seq::empty()))),
            ("remote"@, Scalar::Text(path@)),
        ],
{
    let fs = remote_fs_string(remote_name, "");
    proof {
        reveal_strlit("");
        assert(remote_fs(remote_name@, ""@) == remote_fs(remote_name@, Seq::empty()));
    }
    text2_request("operations/list", "fs", fs.as_str(), "remote", path)
}

/// A call on one path of a file system: `{fs, remote}`.
pub fn path_request(endpoint: &str, fs: &str, remote: &str) -> (r: RcRequest)
    ensures
        r.endpoint@ == endpoint@,
        members(r.params) == seq![("fs"@, Scalar::Text(fs@)), ("remote"@, Scalar::Text(remote@))],
{
    text2_request(endpoint, "fs", fs, "remote", remote)
}

/// The call that lists one directory of the file system `fs`.
pub fn list_dir_request(fs: &str, remote: &str) -> (r: RcRequest)
    ensures
        r.endpoint@ == "operations/list"@,
        members(r.params) == seq![("fs"@, Scalar::Text(fs@)), ("remote"@, Scalar::Text(remote@))],
{
    path_request("operations/list", fs, remote)
}

/// The call that deletes one file.
pub fn delete_file_request(fs: &str, remote: &str) -> (r: RcRequest)
    ensures
        r.endpoint@ == "operations/deletefile"@,
        members(r.params) == seq![("fs"@, Scalar::Text(fs@)), ("remote"@, Scalar::Text(remote@))],
{
    path_request("operations/deletefile", fs, remote)
}

/// The call that deletes a directory and all it holds.
pub fn purge_dir_request(fs: &str, remote: &str) -> (r: RcRequest)
    ensures
        r.endpoint@ == "operations/purge"@,
        members(r.params) == seq![("fs"@, Scalar::Text(fs@)), ("remote"@, Scalar::Text(remote@))],
{
    path_request("operations/purge", fs, remote)
}

/// The call that creates a directory.
pub fn mkdir_request(fs: &str, remote: &str) -> (r: RcRequest)
    ensures
        r.endpoint@ == "operations/mkdir"@,
        members(r.params) == seq![("fs"@, Scalar::Text(fs@)), ("remote"@, Scalar::Text(remote@))],
{
    path_request("operations/mkdir", fs, remote)
}

/// The call that copies one file.
pub fn copy_file_request(src_fs: &str, src_remote: &str, dst_fs: &str, dst_remote: &str) -> (r:
    RcRequest)
    ensures
        r.endpoint@ == "operations/copyfile"@,
        members(r.params) == seq![
            ("srcFs"@, Scalar::Text(src_fs@)),
            ("srcRemote"@, Scalar::Text(src_remote@)),
            ("dstFs"@, Scalar::Text(dst_fs@)),
            ("dstRemote"@, Scalar::Text(dst_remote@)),
        ],
{
    let mut m: Vec<(String, RcValue)> = Vec::new();
    let ghost m0 = m@;
    push_member(&mut m, "srcFs", text_value(src_fs));
    let ghost m1 = m@;
    proof {
        members_step(m0, m1);
    }
    push_member(&mut m, "srcRemote", text_value(src_remote));
    let ghost m2 = m@;
    proof {
        members_step(m1, m2);
    }
    push_member(&mut m, "dstFs", text_value(dst_fs));
    let ghost m3 = m@;
    proof {
        members_step(m2, m3);
    }
    push_member(&mut m, "dstRemote", text_value(dst_remote));
    proof {
        members_step(m3, m@);
    }
    let r = request("operations/copyfile", m);
    assert(members(r.params) =~= seq![
        ("srcFs"@, Scalar::Text(src_fs@)),
        ("srcRemote"@, Scalar::Text(src_remote@)),
        ("dstFs"@, Scalar::Text(dst_fs@)),
        ("dstRemote"@, Scalar::Text(dst_remote@)),
    ]);
    r
}

fn job_request(endpoint: &str, jobid: i64) -> (r: RcRequest)
    ensures
        r.endpoint@ == endpoint@,
        members(r.params) == seq![("jobid"@, Scalar::Integer(jobid))],
{
    let mut m: Vec<(String, RcValue)> = Vec::new();
    let ghost m0 = m@;
    push_member(&mut m, "jobid", RcValue::Int(jobid));
    proof {
        members_step(m0, m@);
    }
    let r = request(endpoint, m);
    assert(members(r.params) =~= seq![("jobid"@, Scalar::Integer(jobid))]);
    r
}

/// The call that asks for the status of the job `jobid`.
pub fn job_status_request(jobid: i64) -> (r: RcRequest)
    ensures
        r.endpoint@ == "job/status"@,
        members(r.params) == seq![("jobid"@, Scalar::Integer(jobid))],
{
    job_request("job/status", jobid)
}

/// The call that stops the job `jobid`.
pub fn stop_job_request(jobid: i64) -> (r: RcRequest)
    ensures
        r.endpoint@ == "job/stop"@,
        members(r.params) == seq![("jobid"@, Scalar::Integer(jobid))],
{
    job_request("job/stop", jobid)
}

/// The filter member of a sync call, where the task has filters.
pub open spec fn filter_members(filters: Option<Seq<char>>) -> Seq<(Seq<char>, Scalar)> {
    match filters {
        Some(_) => seq![("filters"@, Scalar::Nested)],
        None => Seq::empty(),
    }
}

/// Appends `filters: {filter: f}` where there is a filter.
fn push_filters(m: &mut Vec<(String, RcValue)>, filters: Option<&str>)
    ensures
        final(m)@.len() == old(m)@.len() + (if filters is Some { 1int } else { 0int }),
        final(m)@.map_values(|x: (String, RcValue)| (x.0@, scalar_of(x.1))) == old(m)@.map_values(
            |x: (String, RcValue)| (x.0@, scalar_of(x.1)),
        ) + filter_members(opt_str(filters)),
        filters is Some ==> members(final(m)@.last().1) == seq![("filter"@, Scalar::Text(filters->0@))],
{
    match filters {
        Some(f) => {
            let inner = text1_request("", "filter", f);
            let ghost before = m@;
            push_member(m, "filters", inner.params);
            proof {
                members_step(before, m@);
            }
            assert(m@.map_values(|x: (String, RcValue)| (x.0@, scalar_of(x.1))) =~= before.map_values(
                |x: (String, RcValue)| (x.0@, scalar_of(x.1)),
            ) + filter_members(opt_str(filters)));
        },
        None => {
            assert(m@.map_values(|x: (String, RcValue)| (x.0@, scalar_of(x.1))) =~= m@.map_values(
                |x: (String, RcValue)| (x.0@, scalar_of(x.1)),
            ) + filter_members(opt_str(filters)));
        },
    }
}

/// The view of an optional borrowed text.
pub open spec fn opt_str(o: Option<&str>) -> Option<Seq<char>> {
    match o {
        Some(s) => Some(s@),
        None => None,
    }
}

/// The members of a one-way sync job from `src` to `dst` started in the
/// background, with the filter member where there is a filter.
pub open spec fn sync_members(src: Seq<char>, dst: Seq<char>, filters: Option<Seq<char>>) -> Seq<
    (Seq<char>, Scalar),
> {
    seq![("srcFs"@, Scalar::Text(src)), ("dstFs"@, Scalar::Text(dst)), ("_async"@, Scalar::Flag(true))]
        + filter_members(filters)
}

/// The members of a two-way job between `path1` and `path2` started in the
/// background, with the filter member where there is a filter.
pub open spec fn bisync_members(
    path1: Seq<char>,
    path2: Seq<char>,
    resync: bool,
    conflict_resolve: Seq<char>,
    filters: Option<Seq<char>>,
) -> Seq<(Seq<char>, Scalar)> {
    seq![
        ("path1"@, Scalar::Text(path1)),
        ("path2"@, Scalar::Text(path2)),
        ("resync"@, Scalar::Flag(resync)),
        ("conflictResolve"@, Scalar::Text(conflict_resolve)),
        ("_async"@, Scalar::Flag(true)),
    ] + filter_members(filters)
}

/// Where there is a filter, the member at `at` is `{filter: <filter>}`.
pub open spec fn filter_object_at(params: RcValue, at: int, filters: Option<Seq<char>>) -> bool {
    filters is Some ==> members(member_value(params, at)) == seq![("filter"@, Scalar::Text(filters->0))]
}

/// A one-way sync job from `src_fs` to `dst_fs`, started in the background.
fn sync_request(src_fs: &str, dst_fs: &str, filters: Option<&str>) -> (r: RcRequest)
    ensures
        r.endpoint@ == "sync/sync"@,
        members(r.params) == sync_members(src_fs@, dst_fs@, opt_str(filters)),
        filter_object_at(r.params, 3, opt_str(filters)),
{
    let mut m: Vec<(String, RcValue)> = Vec::new();
    let ghost m0 = m@;
    push_member(&mut m, "srcFs", text_value(src_fs));
    let ghost m1 = m@;
    proof {
        members_step(m0, m1);
    }
    push_member(&mut m, "dstFs", text_value(dst_fs));
    let ghost m2 = m@;
    proof {
        members_step(m1, m2);
    }
    push_member(&mut m, "_async", RcValue::Bool(true));
    let ghost m3 = m@;
    proof {
        members_step(m2, m3);
    }
    assert(m3.map_values(|x: (String, RcValue)| (x.0@, scalar_of(x.1))) =~= seq![
        ("srcFs"@, Scalar::Text(src_fs@)),
        ("dstFs"@, Scalar::Text(dst_fs@)),
        ("_async"@, Scalar::Flag(true)),
    ]);
    push_filters(&mut m, filters);
    let r = request("sync/sync", m);
    r
}

/// The job that copies the local directory to `remote:path`, deleting at
/// the destination what the source lacks.
pub fn sync_upload_request(
    local_path: &str,
    remote_name: &str,
    remote_path: &str,
    filters: Option<&str>,
) -> (r: RcRequest)
    ensures
        r.endpoint@ == "sync/sync"@,
        members(r.params) == sync_members(local_path@, remote_fs(remote_name@, remote_path@), opt_str(filters)),
        filter_object_at(r.params, 3, opt_str(filters)),
{
    let dst = remote_fs_string(remote_name, remote_path);
    sync_request(local_path, dst.as_str(), filters)
}

/// The job that copies `remote:path` to the local directory.
pub fn sync_download_request(
    remote_name: &str,
    remote_path: &str,
    local_path: &str,
    filters: Option<&str>,
) -> (r: RcRequest)
    ensures
        r.endpoint@ == "sync/sync"@,
        members(r.params) == sync_members(remote_fs(remote_name@, remote_path@), local_path@, opt_str(filters)),
        filter_object_at(r.params, 3, opt_str(filters)),
{
    let src = remote_fs_string(remote_name, remote_path);
    sync_request(src.as_str(), local_path, filters)
}

/// The two-way job between the local directory and `remote:path`.
pub fn bisync_request(
    local_path: &str,
    remote_name: &str,
    remote_path: &str,
    resync: bool,
    conflict_resolve: &str,
    filters: Option<&str>,
) -> (r: RcRequest)
    ensures
        r.endpoint@ == "sync/bisync"@,
        members(r.params) == bisync_members(
            local_path@,
            remote_fs(remote_name@, remote_path@),
            resync,
            conflict_resolve@,
            opt_str(filters),
        ),
        filter_object_at(r.params, 5, opt_str(filters)),
{
    let path2 = remote_fs_string(remote_name, remote_path);
    let mut m: Vec<(String, RcValue)> = Vec::new();
    let ghost m0 = m@;
    push_member(&mut m, "path1", text_value(local_path));
    let ghost m1 = m@;
    proof {
        members_step(m0, m1);
    }
    push_member(&mut m, "path2", text_value(path2.as_str()));
    let ghost m2 = m@;
    proof {
        members_step(m1, m2);
    }
    push_member(&mut m, "resync", RcValue::Bool(resync));
    let ghost m3 = m@;
    proof {
        members_step(m2, m3);
    }
    push_member(&mut m, "conflictResolve", text_value(conflict_resolve));
    let ghost m4 = m@;
    proof {
        members_step(m3, m4);
    }
    push_member(&mut m, "_async", RcValue::Bool(true));
    let ghost m5 = m@;
    proof {
        members_step(m4, m5);
    }
    assert(m5.map_values(|x: (String, RcValue)| (x.0@, scalar_of(x.1))) =~= seq![
        ("path1"@, Scalar::Text(local_path@)),
        ("path2"@, Scalar::Text(remote_fs(remote_name@, remote_path@))),
        ("resync"@, Scalar::Flag(resync)),
        ("conflictResolve"@, Scalar::Text(conflict_resolve@)),
        ("_async"@, Scalar::Flag(true)),
    ]);
    push_filters(&mut m, filters);
    request("sync/bisync", m)
}

} // verus!
