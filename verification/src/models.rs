//! The records that the client keeps: sync tasks, sync logs, scanned
//! changes, settings, remote configurations and file listings.

use vstd::prelude::*;

verus! {

/// The view of an optional text.
pub open spec fn opt_text(o: Option<String>) -> Option<Seq<char>> {
    match o {
        Some(s) => Some(s@),
        None => None,
    }
}

/// A sync task as stored: a local directory, a remote path and the direction
/// in which they are kept in step.
#[derive(Debug, Clone)]
pub struct Task {
    pub id: i64,
    pub name: String,
    pub local_path: String,
    pub remote_name: String,
    pub remote_path: String,
    pub direction: String,
    pub filters: Option<String>,
    pub conflict_policy: String,
    pub auto_sync: bool,
    pub sync_interval: Option<i64>,
    pub is_enabled: bool,
    pub last_sync_at: Option<String>,
    pub created_at: String,
    pub updated_at: String,
}

/// What a caller gives to create a sync task.
#[derive(Debug, Clone)]
pub struct NewTask {
    pub name: String,
    pub local_path: String,
    pub remote_name: String,
    pub remote_path: String,
    pub direction: String,
    pub filters: Option<String>,
    pub conflict_policy: String,
    pub auto_sync: bool,
    pub sync_interval: Option<i64>,
    pub is_enabled: bool,
}

/// One run of a task (a scan or a sync) with its statistics.
#[derive(Debug, Clone)]
pub struct SyncLog {
    pub id: i64,
    pub task_id: i64,
    pub task_name: Option<String>,
    pub direction: String,
    pub status: String,
    pub total_files: i64,
    pub transferred_bytes: i64,
    pub added_count: i64,
    pub modified_count: i64,
    pub deleted_count: i64,
    pub error_count: i64,
    pub started_at: String,
    pub ended_at: Option<String>,
    pub log_path: Option<String>,
}

/// What is recorded when a run of a task starts.
#[derive(Debug, Clone)]
pub struct NewSyncLog {
    pub task_id: i64,
    pub direction: String,
    pub status: String,
    pub started_at: String,
}

/// A scanned difference as stored, with the user's selection.
#[derive(Debug, Clone)]
pub struct SyncChange {
    pub id: i64,
    pub log_id: i64,
    pub file_path: String,
    pub change_type: String,
    pub side: Option<String>,
    pub local_size: Option<i64>,
    pub remote_size: Option<i64>,
    pub local_modtime: Option<i64>,
    pub remote_modtime: Option<i64>,
    pub is_selected: bool,
    pub resolved_by: Option<String>,
}

/// A difference found by a scan, before it is stored.
#[derive(Debug, Clone)]
pub struct NewSyncChange {
    pub log_id: i64,
    pub file_path: String,
    pub change_type: String,
    pub side: Option<String>,
    pub local_size: Option<i64>,
    pub remote_size: Option<i64>,
    pub local_modtime: Option<i64>,
    pub remote_modtime: Option<i64>,
}

/// The mathematical value of a [`NewSyncChange`].
pub struct ChangeView {
    pub log_id: i64,
    pub file_path: Seq<char>,
    pub change_type: Seq<char>,
    pub side: Option<Seq<char>>,
    pub local_size: Option<i64>,
    pub remote_size: Option<i64>,
    pub local_modtime: Option<i64>,
    pub remote_modtime: Option<i64>,
}

impl View for NewSyncChange {
    type V = ChangeView;

    open spec fn view(&self) -> ChangeView {
        ChangeView {
            log_id: self.log_id,
            file_path: self.file_path@,
            change_type: self.change_type@,
            side: opt_text(self.side),
            local_size: self.local_size,
            remote_size: self.remote_size,
            local_modtime: self.local_modtime,
            remote_modtime: self.remote_modtime,
        }
    }
}

/// An application setting.
#[derive(Debug, Clone)]
pub struct AppSetting {
    pub key: String,
    pub value: String,
    pub updated_at: String,
}

/// The configuration of an rclone remote: its name, its backend type and its
/// parameters, in the order given.
#[derive(Debug, Clone)]
pub struct RemoteConfig {
    pub name: String,
    pub remote_type: String,
    pub parameters: Option<Vec<(String, String)>>,
}

/// One entry of a remote directory listing.
#[derive(Debug, Clone)]
pub struct RemoteFile {
    pub name: String,
    pub path: String,
    pub is_dir: bool,
    pub size: i64,
    pub mod_time: String,
}

/// The mathematical value of a [`RemoteFile`].
pub struct RemoteFileView {
    pub name: Seq<char>,
    pub path: Seq<char>,
    pub is_dir: bool,
    pub size: i64,
    pub mod_time: Seq<char>,
}

impl View for RemoteFile {
    type V = RemoteFileView;

    open spec fn view(&self) -> RemoteFileView {
        RemoteFileView {
            name: self.name@,
            path: self.path@,
            is_dir: self.is_dir,
            size: self.size,
            mod_time: self.mod_time@,
        }
    }
}

/// The outcome of one file transfer.
#[derive(Debug, Clone)]
pub struct FileTransferResult {
    pub success: bool,
    pub path: String,
    pub error: Option<String>,
}

/// The mathematical value of a [`FileTransferResult`].
pub struct TransferView {
    pub success: bool,
    pub path: Seq<char>,
    pub error: Option<Seq<char>>,
}

impl View for FileTransferResult {
    type V = TransferView;

    open spec fn view(&self) -> TransferView {
        TransferView { success: self.success, path: self.path@, error: opt_text(self.error) }
    }
}

/// The user's choice for one scanned change.
#[derive(Debug, Clone)]
pub struct DiffSelection {
    pub change_id: i64,
    pub is_selected: bool,
}

/// A listed file: its size and its modification time in unix seconds, where
/// the listing's time could be read.
#[derive(Debug, Clone, Copy, PartialEq, Eq, Structural)]
pub struct FileEntry {
    pub size: i64,
    pub mod_time: Option<i64>,
}

} // verus!
