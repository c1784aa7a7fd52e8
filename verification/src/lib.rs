//! Verified core of a desktop file-sync client driven by rclone's remote
//! control API: path and remote naming rules, the request and reply model of
//! the remote control API, the recursive listing walk, the difference scan
//! between two listings, the task run state machine and the change debouncer.

pub mod text;
pub mod models;
pub mod filemap;
pub mod diff;
pub mod scan_laws;
pub mod rc_value;
pub mod rc_api;
pub mod rc_reply;
pub mod listing;
pub mod task_run;
pub mod watcher;
pub mod transfers;
pub mod browse;
pub mod daemon;
pub mod selection;
