//! File browser operations on a remote: which file copies an upload or a
//! download of single files makes, what each copy's outcome reports, and
//! which call deletes an item or creates a folder.

use vstd::prelude::*;
use crate::models::{FileTransferResult, TransferView, opt_text};
use crate::rc_api::{RcRequest, Scalar, members, copy_file_request, purge_dir_request, delete_file_request, mkdir_request};
use crate::text::{joined_path, join_remote_path, remote_fs, remote_fs_string};

verus! {

/// The last component of `path` as `std::path::Path::file_name` finds it,
/// where it finds one.
pub uninterp spec fn path_file_name(path: Seq<char>) -> Option<Seq<char>>;

/// The path without its last component as `std::path::Path::parent` finds
/// it, where it finds one.
pub uninterp spec fn path_parent(path: Seq<char>) -> Option<Seq<char>>;

/// Calls `std::path::Path::file_name` on `path` and converts the name to a
/// `String`. Claimed: the result is a function of `path` alone, named
/// `path_file_name`; nothing more is stated of it. How `std::path` splits a
/// path depends on the target platform (a backslash separates components on
/// Windows only), which is fixed for one build.
#[verifier::external_body]
fn file_name_of(path: &str) -> (r: Option<String>)
    ensures
        opt_text(r) == path_file_name(path@),
{
    match std::path::Path::new(path).file_name() {
        Some(n) => Some(n.to_string_lossy().to_string()),
        None => None,
    }
}

/// Calls `std::path::Path::parent` on `path` and converts the parent to a
/// `String`. Claimed: the result is a function of `path` alone, named
/// `path_parent`; nothing more is stated of it. How `std::path` splits a
/// path depends on the target platform, which is fixed for one build.
#[verifier::external_body]
fn parent_of(path: &str) -> (r: Option<String>)
    ensures
        opt_text(r) == path_parent(path@),
{
    match std::path::Path::new(path).parent() {
        Some(p) => Some(p.to_string_lossy().to_string()),
        None => None,
    }
}

/// One file copy: from `src_remote` in the file system `src_fs` to
/// `dst_remote` in `dst_fs`.
#[derive(Debug, Clone)]
pub struct CopyPlan {
    pub src_fs: String,
    pub src_remote: String,
    pub dst_fs: String,
    pub dst_remote: String,
}

/// The mathematical value of a [`CopyPlan`].
pub struct CopyPlanView {
    pub src_fs: Seq<char>,
    pub src_remote: Seq<char>,
    pub dst_fs: Seq<char>,
    pub dst_remote: Seq<char>,
}

impl View for CopyPlan {
    type V = CopyPlanView;

    open spec fn view(&self) -> CopyPlanView {
        CopyPlanView {
            src_fs: self.src_fs@,
            src_remote: self.src_remote@,
            dst_fs: self.dst_fs@,
            dst_remote: self.dst_remote@,
        }
    }
}

/// A failed transfer of `path` with the message `error`.
pub open spec fn failed_transfer(path: Seq<char>, error: Seq<char>) -> TransferView {
    TransferView { success: false, path, error: Some(error) }
}

/// The copy that uploads a local file into the remote directory
/// `remote_path` of `remote_name`, given the file's `name` and the
/// directory it is in (`parent`), as a path library reads them from
/// `local_path`: from that directory, under the name, to the remote
/// directory joined with the name. Without a name it fails with
/// `"Invalid file path"`, without a parent with `"Cannot determine parent
/// directory"`, each reported for `local_path`.
pub open spec fn upload_plan(
    local_path: Seq<char>,
    remote_name: Seq<char>,
    remote_path: Seq<char>,
    name: Option<Seq<char>>,
    parent: Option<Seq<char>>,
) -> Result<CopyPlanView, TransferView> {
    match (name, parent) {
        (None, _) => Err(failed_transfer(local_path, "Invalid file path"@)),
        (Some(_), None) => Err(failed_transfer(local_path, "Cannot determine parent directory"@)),
        (Some(n), Some(dir)) => Ok(
            CopyPlanView {
                src_fs: dir,
                src_remote: n,
                dst_fs: remote_fs(remote_name, Seq::empty()),
                dst_remote: joined_path(remote_path, n),
            },
        ),
    }
}

/// The view of a planned copy or of its failure.
pub open spec fn plan_view(r: Result<CopyPlan, FileTransferResult>) -> Result<CopyPlanView, TransferView> {
    match r {
        Ok(p) => Ok(p@),
        Err(e) => Err(e@),
    }
}

/// The upload copy of [`upload_plan`], from the file's `name` and `parent`
/// as read from `local_path`.
pub fn plan_upload_from(
    local_path: &str,
    remote_name: &str,
    remote_path: &str,
    name: Option<String>,
    parent: Option<String>,
) -> (r: Result<CopyPlan, FileTransferResult>)
    ensures
        plan_view(r) == upload_plan(local_path@, remote_name@, remote_path@, opt_text(name), opt_text(parent)),
{
    let file_name = match name {
        Some(n) => n,
        None => {
            return Err(
                FileTransferResult {
                    success: false,
                    path: local_path.to_owned(),
                    error: Some("Invalid file path".to_owned()),
                },
            );
        },
    };
    let remote_file_path = join_remote_path(remote_path, file_name.as_str());
    let local_dir = match parent {
        Some(p) => p,
        None => {
            return Err(
                FileTransferResult {
                    success: false,
                    path: local_path.to_owned(),
                    error: Some("Cannot determine parent directory".to_owned()),
                },
            );
        },
    };
    let dst_fs = remote_fs_string(remote_name, "");
    proof {
        reveal_strlit("");
        assert(""@ =~= Seq::<char>::empty());
    }
    Ok(CopyPlan { src_fs: local_dir, src_remote: file_name, dst_fs, dst_remote: remote_file_path })
}

/// The copy that uploads the local file `local_path` into the remote
/// directory `remote_path` of `remote_name`, with the file's name and
/// directory as `std::path` reads them.
pub fn plan_upload(local_path: &str, remote_name: &str, remote_path: &str) -> (r: Result<
    CopyPlan,
    FileTransferResult,
>)
    ensures
        plan_view(r) == upload_plan(
            local_path@,
            remote_name@,
            remote_path@,
            path_file_name(local_path@),
            path_parent(local_path@),
        ),
{
    plan_upload_from(local_path, remote_name, remote_path, file_name_of(local_path), parent_of(local_path))
}

/// The copy that downloads the remote file `remote_file` of `remote_name`
/// into the local directory `local_dir`, under `name`, the file's name as
/// a path library reads it (the whole path where it reads none).
pub open spec fn download_plan(
    remote_name: Seq<char>,
    remote_file: Seq<char>,
    local_dir: Seq<char>,
    name: Option<Seq<char>>,
) -> CopyPlanView {
    CopyPlanView {
        src_fs: remote_fs(remote_name, Seq::empty()),
        src_remote: remote_file,
        dst_fs: local_dir,
        dst_remote: match name {
            Some(n) => n,
            None => remote_file,
        },
    }
}

/// The download copy of [`download_plan`], from the file's `name` as read
/// from `remote_file`.
pub fn plan_download_from(remote_name: &str, remote_file: &str, local_dir: &str, name: Option<String>) -> (r:
    CopyPlan)
    ensures
        r@ == download_plan(remote_name@, remote_file@, local_dir@, opt_text(name)),
{
    let file_name = match name {
        Some(n) => n,
        None => remote_file.to_owned(),
    };
    let src_fs = remote_fs_string(remote_name, "");
    proof {
        reveal_strlit("");
        assert(""@ =~= Seq::<char>::empty());
    }
    CopyPlan { src_fs, src_remote: remote_file.to_owned(), dst_fs: local_dir.to_owned(), dst_remote: file_name }
}

/// The copy that downloads the remote file `remote_file` of `remote_name`
/// into the local directory `local_dir`, under the file's name as
/// `std::path` reads it.
pub fn plan_download(remote_name: &str, remote_file: &str, local_dir: &str) -> (r: CopyPlan)
    ensures
        r@ == download_plan(remote_name@, remote_file@, local_dir@, path_file_name(remote_file@)),
{
    plan_download_from(remote_name, remote_file, local_dir, file_name_of(remote_file))
}

/// The call that carries out a copy.
pub fn copy_request(plan: &CopyPlan) -> (r: RcRequest)
    ensures
        r.endpoint@ == "operations/copyfile"@,
        members(r.params) == seq![
            ("srcFs"@, Scalar::Text(plan.src_fs@)),
            ("srcRemote"@, Scalar::Text(plan.src_remote@)),
            ("dstFs"@, Scalar::Text(plan.dst_fs@)),
            ("dstRemote"@, Scalar::Text(plan.dst_remote@)),
        ],
{
    copy_file_request(
        plan.src_fs.as_str(),
        plan.src_remote.as_str(),
        plan.dst_fs.as_str(),
        plan.dst_remote.as_str(),
    )
}

/// What the transfer of `path` reports: success where the copy succeeded,
/// else failure with the copy's error.
pub fn transfer_result(path: &str, outcome: Result<(), String>) -> (r: FileTransferResult)
    ensures
        match outcome {
            Ok(_) => r@ == (TransferView { success: true, path: path@, error: None }),
            Err(e) => r@ == failed_transfer(path@, e@),
        },
{
    match outcome {
        Ok(_) => FileTransferResult { success: true, path: path.to_owned(), error: None },
        Err(e) => FileTransferResult { success: false, path: path.to_owned(), error: Some(e) },
    }
}

/// The call that deletes the item `path` of `remote_name`: a purge of a
/// directory and all it holds, or a deletion of a file.
pub fn delete_item_request(remote_name: &str, path: &str, is_dir: bool) -> (r: RcRequest)
    ensures
        r.endpoint@ == (if is_dir { "operations/purge"@ } else { "operations/deletefile"@ }),
        members(r.params) == seq![
            ("fs"@, Scalar::Text(remote_fs(remote_name@, Seq::empty()))),
            ("remote"@, Scalar::Text(path@)),
        ],
{
    let fs = remote_fs_string(remote_name, "");
    proof {
        reveal_strlit("");
        assert(""@ =~= Seq::<char>::empty());
    }
    if is_dir {
        purge_dir_request(fs.as_str(), path)
    } else {
        delete_file_request(fs.as_str(), path)
    }
}

/// The call that creates the folder `folder_name` in the remote directory
/// `remote_path` of `remote_name`.
pub fn create_folder_request(remote_name: &str, remote_path: &str, folder_name: &str) -> (r:
    RcRequest)
    ensures
        r.endpoint@ == "operations/mkdir"@,
        members(r.params) == seq![
            ("fs"@, Scalar::Text(remote_fs(remote_name@, Seq::empty()))),
            ("remote"@, Scalar::Text(joined_path(remote_path@, folder_name@))),
        ],
{
    let fs = remote_fs_string(remote_name, "");
    proof {
        reveal_strlit("");
        assert(""@ =~= Seq::<char>::empty());
    }
    let folder_path = join_remote_path(remote_path, folder_name);
    mkdir_request(fs.as_str(), folder_path.as_str())
}

} // verus!
