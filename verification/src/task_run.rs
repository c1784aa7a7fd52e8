//! The run state of sync tasks and the decisions of a sync run: whether a
//! task may start, which job it starts, what each status reply of the job
//! means and what is recorded when the run ends.

use vstd::prelude::*;
use std::collections::HashMap;
use crate::diff::{Direction, direction_of, parse_direction};
use crate::models::{ChangeView, NewSyncChange, NewSyncLog, Task, opt_text};
use crate::diff::{change_views, compute_changes, scan_changes, added_changes, deleted_changes, modified_changes};
use crate::filemap::FileMap;
use crate::scan_laws::law_scan_log_counts;
use crate::text::text_eq;
use crate::rc_api::{
    RcRequest, bisync_request, sync_download_request, sync_upload_request, members, sync_members,
    bisync_members, filter_object_at, opt_str,
};
use crate::text::remote_fs;
use crate::rc_api::{Scalar, member_value};
use crate::selection::{exclusion_members, exclusions_at, with_exclusions, array_scalars, exclude_rule, deselects, deselected_of, deselected_paths, law_selection_excludes_exactly, exclusion_rules};
use crate::models::SyncChange;
use crate::rc_reply::or_default;
use crate::rc_value::{RcValue, field, bool_of, int_of, text_of, items_of, field_bool, field_i64, field_items, field_text};

verus! {

/// Where a task stands: idle, scanning for differences, syncing, or after a
/// run that completed or failed.
#[derive(Debug, Clone, Copy, PartialEq, Eq, Structural)]
pub enum TaskState {
    Idle,
    Scanning,
    Syncing,
    Completed,
    Failed,
}

/// The text that reports a state.
pub open spec fn state_text(s: TaskState) -> Seq<char> {
    match s {
        TaskState::Idle => "idle"@,
        TaskState::Scanning => "scanning"@,
        TaskState::Syncing => "syncing"@,
        TaskState::Completed => "completed"@,
        TaskState::Failed => "failed"@,
    }
}

/// The text that reports `s`: `"idle"`, `"scanning"`, `"syncing"`,
/// `"completed"` or `"failed"`.
pub fn state_label(s: TaskState) -> (r: String)
    ensures
        r@ == state_text(s),
{
    match s {
        TaskState::Idle => "idle".to_owned(),
        TaskState::Scanning => "scanning".to_owned(),
        TaskState::Syncing => "syncing".to_owned(),
        TaskState::Completed => "completed".to_owned(),
        TaskState::Failed => "failed".to_owned(),
    }
}

/// A task in this state is running: scanning or syncing.
pub open spec fn is_active(s: TaskState) -> bool {
    s == TaskState::Scanning || s == TaskState::Syncing
}

/// The task `task_id` is scanning or syncing.
pub open spec fn is_running(board: Map<i64, RuntimeEntry>, task_id: i64) -> bool {
    board.contains_key(task_id) && is_active(board[task_id].status)
}

/// `task` may start a run: it is enabled and not running.
pub open spec fn may_start(board: Map<i64, RuntimeEntry>, task: Task) -> bool {
    task.is_enabled && !is_running(board, task.id)
}

/// The run of `task_id` that waits on `job` has been cancelled: the board
/// no longer shows the task syncing, waiting on that job.
pub open spec fn run_is_cancelled(board: Map<i64, RuntimeEntry>, task_id: i64, job: Option<i64>) -> bool {
    !(board.contains_key(task_id) && board[task_id] == (RuntimeEntry {
        status: TaskState::Syncing,
        job_id: job,
    }))
}

/// What the run state of one task records besides its display data: its
/// state and the job it waits on.
#[derive(Debug, Clone, Copy, PartialEq, Eq, Structural)]
pub struct RuntimeEntry {
    pub status: TaskState,
    pub job_id: Option<i64>,
}

/// The run state of every task that has run, keyed by task id.
pub struct RuntimeBoard {
    states: HashMap<i64, RuntimeEntry>,
}

impl View for RuntimeBoard {
    type V = Map<i64, RuntimeEntry>;

    closed spec fn view(&self) -> Map<i64, RuntimeEntry> {
        self.states@
    }
}

/// What cancelling `task_id` takes: nothing for a task with no run state;
/// for any other, stopping the job it waits on (if any) and then resetting
/// it.
pub open spec fn cancel_decision(board: Map<i64, RuntimeEntry>, task_id: i64) -> CancelStep {
    if !board.contains_key(task_id) {
        CancelStep::Nothing
    } else {
        match board[task_id].job_id {
            Some(j) => CancelStep::StopJobThenReset(j),
            None => CancelStep::Reset,
        }
    }
}

/// What cancelling a task takes.
#[derive(Debug, Clone, Copy, PartialEq, Eq, Structural)]
pub enum CancelStep {
    /// The task has no run state: nothing is done.
    Nothing,
    /// The task waits on no job: it is reset to idle.
    Reset,
    /// The job is stopped first; once it stopped, the task is reset.
    StopJobThenReset(i64),
}

impl RuntimeBoard {
    /// A board where no task has run.
    pub fn new() -> (b: RuntimeBoard)
        ensures
            b@ == Map::<i64, RuntimeEntry>::empty(),
    {
        RuntimeBoard { states: HashMap::new() }
    }

    /// The run state of `task_id`.
    pub fn get(&self, task_id: i64) -> (r: Option<RuntimeEntry>)
        ensures
            r == (if self@.contains_key(task_id) { Some(self@[task_id]) } else { None::<RuntimeEntry> }),
    {
        broadcast use vstd::std_specs::hash::group_hash_axioms;
        match self.states.get(&task_id) {
            Some(e) => Some(*e),
            None => None,
        }
    }

    /// Records that `task_id` is now in `status`, waiting on `job_id`.
    pub fn set(&mut self, task_id: i64, status: TaskState, job_id: Option<i64>)
        ensures
            final(self)@ == old(self)@.insert(task_id, RuntimeEntry { status, job_id }),
    {
        broadcast use vstd::std_specs::hash::group_hash_axioms;
        self.states.insert(task_id, RuntimeEntry { status, job_id });
    }

    /// Resets `task_id` to idle, waiting on no job (the end of a cancel, or
    /// of a scan).
    pub fn reset(&mut self, task_id: i64)
        ensures
            final(self)@ == old(self)@.insert(task_id, RuntimeEntry { status: TaskState::Idle, job_id: None }),
            final(self)@[task_id].status == TaskState::Idle,
            final(self)@[task_id].job_id is None,
    {
        self.set(task_id, TaskState::Idle, None);
    }

    /// Whether the run of `task_id` that waits on `job` has been cancelled:
    /// the task no longer syncs waiting on that job.
    pub fn run_cancelled(&self, task_id: i64, job: Option<i64>) -> (r: bool)
        ensures
            r == run_is_cancelled(self@, task_id, job),
    {
        match self.get(task_id) {
            Some(e) => !(e.status == TaskState::Syncing && e.job_id == job),
            None => true,
        }
    }

    /// Whether `task` may start a run: a disabled task is refused with
    /// `"Task is disabled"`, and a task that is scanning or syncing with
    /// `"Task is already running"`.
    pub fn admit_run(&self, task: &Task) -> (r: Result<(), String>)
        ensures
            r is Ok <==> may_start(self@, *task),
            !task.is_enabled ==> r is Err && r->Err_0@ == "Task is disabled"@,
            task.is_enabled && is_running(self@, task.id) ==> r is Err && r->Err_0@
                == "Task is already running"@,
    {
        if !task.is_enabled {
            return Err("Task is disabled".to_owned());
        }
        match self.get(task.id) {
            Some(e) => {
                if e.status == TaskState::Scanning || e.status == TaskState::Syncing {
                    return Err("Task is already running".to_owned());
                }
            },
            None => {},
        }
        Ok(())
    }

    /// What cancelling `task_id` takes: nothing for a task with no run
    /// state; for any other, stopping the job it waits on (if any) and then
    /// resetting it.
    pub fn cancel_step(&self, task_id: i64) -> (r: CancelStep)
        ensures
            r == cancel_decision(self@, task_id),
    {
        match self.get(task_id) {
            None => CancelStep::Nothing,
            Some(e) => match e.job_id {
                Some(j) => CancelStep::StopJobThenReset(j),
                None => CancelStep::Reset,
            },
        }
    }
}

/// A task that is scanning or syncing may not start another run; once it
/// is reset (a cancel) or has ended (completed or failed), an enabled task
/// may start again.
pub proof fn law_one_run_at_a_time(board: Map<i64, RuntimeEntry>, task: Task, job_id: Option<i64>)
    ensures
        !may_start(board.insert(task.id, RuntimeEntry { status: TaskState::Syncing, job_id }), task),
        !may_start(board.insert(task.id, RuntimeEntry { status: TaskState::Scanning, job_id }), task),
        may_start(board.insert(task.id, RuntimeEntry { status: TaskState::Idle, job_id: None }), task)
            == task.is_enabled,
        may_start(board.insert(task.id, RuntimeEntry { status: TaskState::Completed, job_id }), task)
            == task.is_enabled,
        may_start(board.insert(task.id, RuntimeEntry { status: TaskState::Failed, job_id }), task)
            == task.is_enabled,
{
}

/// The job that a run of `task` starts: a sync from the local directory to
/// the remote path for an upload, the other way for a download, and a
/// bisync (without resync, with the task's conflict policy) otherwise; each
/// with the task's filters, and with an exclusion rule for each path in
/// `deselected` (the changes the user deselected), so that the run leaves
/// those files alone on both sides. A task whose direction names none of
/// the three is refused with `"Invalid direction"`.
pub fn sync_job_request(task: &Task, deselected: &Vec<String>) -> (r: Result<RcRequest, String>)
    ensures
        match direction_of(task.direction@) {
            Some(Direction::Upload) => r is Ok && r->Ok_0.endpoint@ == "sync/sync"@,
            Some(Direction::Download) => r is Ok && r->Ok_0.endpoint@ == "sync/sync"@,
            Some(Direction::Bisync) => r is Ok && r->Ok_0.endpoint@ == "sync/bisync"@,
            None => r is Err && r->Err_0@ == "Invalid direction"@,
        },
        direction_of(task.direction@) == Some(Direction::Upload) ==> members(r->Ok_0.params)
            == upload_members(*task) + exclusion_members(deselected@.map_values(|s: String| s@))
            && filter_object_at(r->Ok_0.params, 3, opt_text(task.filters)) && exclusions_at(
            r->Ok_0.params,
            upload_members(*task).len() as int,
            deselected@.map_values(|s: String| s@),
        ),
        direction_of(task.direction@) == Some(Direction::Download) ==> members(r->Ok_0.params)
            == download_members(*task) + exclusion_members(deselected@.map_values(|s: String| s@))
            && filter_object_at(r->Ok_0.params, 3, opt_text(task.filters)) && exclusions_at(
            r->Ok_0.params,
            download_members(*task).len() as int,
            deselected@.map_values(|s: String| s@),
        ),
        direction_of(task.direction@) == Some(Direction::Bisync) ==> members(r->Ok_0.params)
            == task_bisync_members(*task) + exclusion_members(deselected@.map_values(|s: String| s@))
            && filter_object_at(r->Ok_0.params, 5, opt_text(task.filters)) && exclusions_at(
            r->Ok_0.params,
            task_bisync_members(*task).len() as int,
            deselected@.map_values(|s: String| s@),
        ),
{
    let filters: Option<&str> = match &task.filters {
        Some(f) => Some(f.as_str()),
        None => None,
    };
    assert(opt_str(filters) == opt_text(task.filters));
    let base = match parse_direction(task.direction.as_str()) {
        Some(Direction::Upload) => sync_upload_request(
            task.local_path.as_str(),
            task.remote_name.as_str(),
            task.remote_path.as_str(),
            filters,
        ),
        Some(Direction::Download) => sync_download_request(
            task.remote_name.as_str(),
            task.remote_path.as_str(),
            task.local_path.as_str(),
            filters,
        ),
        Some(Direction::Bisync) => bisync_request(
            task.local_path.as_str(),
            task.remote_name.as_str(),
            task.remote_path.as_str(),
            false,
            task.conflict_policy.as_str(),
            filters,
        ),
        None => return Err("Invalid direction".to_owned()),
    };
    assert(members(base.params).len() >= 3);
    let ghost base_params = base.params;
    let r = with_exclusions(base, deselected);
    proof {
        if opt_text(task.filters) is Some {
            assert(member_value(r.params, 3) == member_value(base_params, 3));
            if direction_of(task.direction@) == Some(Direction::Bisync) {
                assert(member_value(r.params, 5) == member_value(base_params, 5));
            }
        }
    }
    Ok(r)
}

/// The members of the job of `task` before any exclusion, by its
/// direction; none for a direction that names no job.
pub open spec fn base_members(task: Task) -> Seq<(Seq<char>, Scalar)> {
    match direction_of(task.direction@) {
        Some(Direction::Upload) => upload_members(task),
        Some(Direction::Download) => download_members(task),
        Some(Direction::Bisync) => task_bisync_members(task),
        None => Seq::empty(),
    }
}

/// The job parameters `params` carry, in their member at `at`, the rule
/// that keeps the path `p` out.
pub open spec fn job_excludes(params: RcValue, at: int, p: Seq<char>) -> bool {
    members(params).len() > at && array_scalars(member_value(member_value(params, at), 0)).contains(
        Scalar::Text(exclude_rule(p)),
    )
}

/// The job that a run of `task` starts after the scan that found
/// `changes`: the job of [`sync_job_request`] for the task, keeping out the
/// changes the user deselected. The job carries the rule that keeps a path
/// out exactly where a change of that path was deselected, so every
/// deselected change is left alone and every path whose changes stayed
/// selected is synced as the task's own filters say.
pub fn selective_job_request(task: &Task, changes: &Vec<SyncChange>) -> (r: Result<RcRequest, String>)
    ensures
        direction_of(task.direction@) is None <==> r is Err,
        r is Err ==> r->Err_0@ == "Invalid direction"@,
        r is Ok ==> members(r->Ok_0.params) == base_members(*task) + exclusion_members(
            deselected_of(changes@),
        ),
        r is Ok ==> exclusions_at(
            r->Ok_0.params,
            base_members(*task).len() as int,
            deselected_of(changes@),
        ),
        r is Ok ==> forall|p: Seq<char>|
            #![trigger job_excludes(r->Ok_0.params, base_members(*task).len() as int, p)]
            job_excludes(r->Ok_0.params, base_members(*task).len() as int, p) <==> deselects(
                changes@,
                p,
            ),
{
    let deselected = deselected_paths(changes);
    let r = sync_job_request(task, &deselected);
    proof {
        let d = deselected_of(changes@);
        assert(deselected@.map_values(|s: String| s@) == d);
        if r is Ok {
            let params = r->Ok_0.params;
            let at = base_members(*task).len() as int;
            assert(members(params) == base_members(*task) + exclusion_members(d));
            assert forall|p: Seq<char>| #[trigger] job_excludes(params, at, p) <==> deselects(changes@, p) by {
                law_selection_excludes_exactly(changes@, p);
                if d.len() > 0 {
                    assert(array_scalars(member_value(member_value(params, at), 0)) == exclusion_rules(d));
                } else {
                    assert(exclusion_members(d) =~= Seq::<(Seq<char>, Scalar)>::empty());
                    assert(members(params).len() == at);
                    assert(!exclusion_rules(d).contains(Scalar::Text(exclude_rule(p))));
                }
            }
        }
    }
    r
}

/// The members of the upload job of `task` before any exclusion.
pub open spec fn upload_members(task: Task) -> Seq<(Seq<char>, Scalar)> {
    sync_members(task.local_path@, remote_fs(task.remote_name@, task.remote_path@), opt_text(task.filters))
}

/// The members of the download job of `task` before any exclusion.
pub open spec fn download_members(task: Task) -> Seq<(Seq<char>, Scalar)> {
    sync_members(remote_fs(task.remote_name@, task.remote_path@), task.local_path@, opt_text(task.filters))
}

/// The members of the bisync job of `task` before any exclusion.
pub open spec fn task_bisync_members(task: Task) -> Seq<(Seq<char>, Scalar)> {
    bisync_members(
        task.local_path@,
        remote_fs(task.remote_name@, task.remote_path@),
        false,
        task.conflict_policy@,
        opt_text(task.filters),
    )
}

} // verus!

verus! {

/// The first of two optional values that is present.
pub open spec fn or_else<T>(a: Option<T>, b: Option<T>) -> Option<T> {
    if a is Some {
        a
    } else {
        b
    }
}

/// The larger of two integers.
pub open spec fn max_i64(a: i64, b: i64) -> i64 {
    if a >= b {
        a
    } else {
        b
    }
}

/// What a finished sync job reports, as the run records it.
#[derive(Debug, Clone, Copy, PartialEq, Eq, Structural)]
pub struct JobOutcome {
    pub success: bool,
    pub total_files: i64,
    pub transferred_bytes: i64,
    pub error_count: i64,
}

/// The statistics of a job status reply: its `stats` member, or the reply
/// itself where it has none.
pub open spec fn status_stats(status: RcValue) -> RcValue {
    or_default(field(status, "stats"@), status)
}

/// Whether a job status reply says the job has finished.
pub open spec fn status_finished(status: RcValue) -> bool {
    or_default(bool_of(field(status, "finished"@)), false)
}

/// The number of entries of the reply's `transferred` array (none where it
/// has none), as an `i64`.
pub open spec fn transferred_count(status: RcValue) -> i64 {
    (or_default(items_of(field(status, "transferred"@)), Seq::empty()).len()) as i64
}

/// What a finished job reports: whether it succeeded, the number of files
/// (the larger of `totalTransfers` and the entries of `transferred`), the
/// bytes moved (`totalBytes`) and the errors (`totalErrorCount`), each read
/// from the statistics under its first name that holds an integer, then
/// from the reply itself, and 0 where none does.
pub open spec fn status_outcome(status: RcValue) -> JobOutcome {
    let stats = status_stats(status);
    let total = or_default(
        or_else(
            or_else(int_of(field(stats, "totalTransfers"@)), int_of(field(stats, "transfers"@))),
            int_of(field(status, "totalTransfers"@)),
        ),
        0,
    );
    let bytes = or_default(
        or_else(
            or_else(int_of(field(stats, "totalBytes"@)), int_of(field(stats, "bytes"@))),
            int_of(field(status, "totalBytes"@)),
        ),
        0,
    );
    let errors = or_default(
        or_else(
            or_else(
                or_else(int_of(field(stats, "totalErrorCount"@)), int_of(field(stats, "errors"@))),
                int_of(field(stats, "totalErrors"@)),
            ),
            int_of(field(status, "totalErrorCount"@)),
        ),
        0,
    );
    JobOutcome {
        success: or_default(bool_of(field(status, "success"@)), false),
        total_files: max_i64(total, transferred_count(status)),
        transferred_bytes: bytes,
        error_count: errors,
    }
}

fn first_int(v: &RcValue, k1: &str, k2: &str) -> (r: Option<i64>)
    ensures
        r == or_else(int_of(field(*v, k1@)), int_of(field(*v, k2@))),
{
    match field_i64(v, k1) {
        Some(x) => Some(x),
        None => field_i64(v, k2),
    }
}

/// What a job status reply reports once the job has finished; none while
/// it runs.
pub fn job_outcome(status: &RcValue) -> (r: Option<JobOutcome>)
    ensures
        status_finished(*status) ==> r == Some(status_outcome(*status)),
        !status_finished(*status) ==> r is None,
{
    let finished = match field_bool(status, "finished") {
        Some(b) => b,
        None => false,
    };
    if !finished {
        return None;
    }
    let success = match field_bool(status, "success") {
        Some(b) => b,
        None => false,
    };
    let stats: &RcValue = match status.get("stats") {
        Some(s) => s,
        None => status,
    };
    let total = match first_int(stats, "totalTransfers", "transfers") {
        Some(x) => x,
        None => match field_i64(status, "totalTransfers") {
            Some(x) => x,
            None => 0,
        },
    };
    let bytes = match first_int(stats, "totalBytes", "bytes") {
        Some(x) => x,
        None => match field_i64(status, "totalBytes") {
            Some(x) => x,
            None => 0,
        },
    };
    let errors = match first_int(stats, "totalErrorCount", "errors") {
        Some(x) => x,
        None => match field_i64(stats, "totalErrors") {
            Some(x) => x,
            None => match field_i64(status, "totalErrorCount") {
                Some(x) => x,
                None => 0,
            },
        },
    };
    let transfer_count: i64 = match field_items(status, "transferred") {
        Some(a) => a.len() as i64,
        None => 0,
    };
    let effective = if total >= transfer_count {
        total
    } else {
        transfer_count
    };
    Some(JobOutcome { success, total_files: effective, transferred_bytes: bytes, error_count: errors })
}

/// The name of the last entry of a job status reply's `transferred` array:
/// the file the job moved last.
pub fn current_file_of(status: &RcValue) -> (r: Option<String>)
    ensures
        ({
            let items = items_of(field(*status, "transferred"@));
            let name = if items is Some && items->0.len() > 0 {
                text_of(field(items->0.last(), "name"@))
            } else {
                None
            };
            &&& r is Some <==> name is Some
            &&& r is Some ==> name == Some(r->0@)
        }),
{
    match field_items(status, "transferred") {
        Some(a) => {
            if a.len() == 0 {
                None
            } else {
                match field_text(&a[a.len() - 1], "name") {
                    Some(t) => Some(t.clone()),
                    None => None,
                }
            }
        },
        None => None,
    }
}

/// The statistics written to a sync log when a run or a scan ends.
#[derive(Debug, Clone)]
pub struct LogUpdate {
    pub status: String,
    pub total_files: i64,
    pub transferred_bytes: i64,
    pub added_count: i64,
    pub modified_count: i64,
    pub deleted_count: i64,
    pub error_count: i64,
    pub log_path: Option<String>,
}

/// The mathematical value of a [`LogUpdate`].
pub struct LogUpdateView {
    pub status: Seq<char>,
    pub total_files: i64,
    pub transferred_bytes: i64,
    pub added_count: i64,
    pub modified_count: i64,
    pub deleted_count: i64,
    pub error_count: i64,
    pub log_path: Option<Seq<char>>,
}

impl View for LogUpdate {
    type V = LogUpdateView;

    open spec fn view(&self) -> LogUpdateView {
        LogUpdateView {
            status: self.status@,
            total_files: self.total_files,
            transferred_bytes: self.transferred_bytes,
            added_count: self.added_count,
            modified_count: self.modified_count,
            deleted_count: self.deleted_count,
            error_count: self.error_count,
            log_path: opt_text(self.log_path),
        }
    }
}

/// The log of a run whose job could not be started or watched: failed, one
/// error, nothing moved.
pub open spec fn failure_log() -> LogUpdateView {
    LogUpdateView {
        status: "failed"@,
        total_files: 0,
        transferred_bytes: 0,
        added_count: 0,
        modified_count: 0,
        deleted_count: 0,
        error_count: 1,
        log_path: None,
    }
}

/// The log of a run whose job finished: completed or failed as the job
/// reports, with all its files counted as added (a sync does not tell new
/// files from modified ones).
pub open spec fn outcome_log(o: JobOutcome) -> LogUpdateView {
    LogUpdateView {
        status: if o.success { "completed"@ } else { "failed"@ },
        total_files: o.total_files,
        transferred_bytes: o.transferred_bytes,
        added_count: o.total_files,
        modified_count: 0,
        deleted_count: 0,
        error_count: o.error_count,
        log_path: None,
    }
}

/// The log of a run that the user cancelled: cancelled, nothing counted.
pub open spec fn cancel_log() -> LogUpdateView {
    LogUpdateView {
        status: "cancelled"@,
        total_files: 0,
        transferred_bytes: 0,
        added_count: 0,
        modified_count: 0,
        deleted_count: 0,
        error_count: 0,
        log_path: None,
    }
}

/// The log of a run that the user cancelled.
pub fn cancel_log_update() -> (r: LogUpdate)
    ensures
        r@ == cancel_log(),
{
    LogUpdate {
        status: "cancelled".to_owned(),
        total_files: 0,
        transferred_bytes: 0,
        added_count: 0,
        modified_count: 0,
        deleted_count: 0,
        error_count: 0,
        log_path: None,
    }
}

/// The log of a run whose job could not be started or watched.
pub fn failure_log_update() -> (r: LogUpdate)
    ensures
        r@ == failure_log(),
{
    LogUpdate {
        status: "failed".to_owned(),
        total_files: 0,
        transferred_bytes: 0,
        added_count: 0,
        modified_count: 0,
        deleted_count: 0,
        error_count: 1,
        log_path: None,
    }
}

/// The log of a run whose job finished with `o`.
pub fn outcome_log_update(o: &JobOutcome) -> (r: LogUpdate)
    ensures
        r@ == outcome_log(*o),
{
    LogUpdate {
        status: if o.success {
            "completed".to_owned()
        } else {
            "failed".to_owned()
        },
        total_files: o.total_files,
        transferred_bytes: o.transferred_bytes,
        added_count: o.total_files,
        modified_count: 0,
        deleted_count: 0,
        error_count: o.error_count,
        log_path: None,
    }
}

/// The log of a scan: completed, nothing moved, no error, with the number
/// of changes of each kind, a conflict counted as a modification.
pub fn scan_log_update(added: i64, modified: i64, deleted: i64, conflict: i64, total: i64) -> (r:
    LogUpdate)
    requires
        i64::MIN <= modified + conflict <= i64::MAX,
    ensures
        r@ == (LogUpdateView {
            status: "completed"@,
            total_files: total,
            transferred_bytes: 0,
            added_count: added,
            modified_count: (modified + conflict) as i64,
            deleted_count: deleted,
            error_count: 0,
            log_path: None,
        }),
{
    LogUpdate {
        status: "completed".to_owned(),
        total_files: total,
        transferred_bytes: 0,
        added_count: added,
        modified_count: modified + conflict,
        deleted_count: deleted,
        error_count: 0,
        log_path: None,
    }
}

/// The number of changes of kind `kind` in `v`.
pub open spec fn count_kind(v: Seq<ChangeView>, kind: Seq<char>) -> nat
    decreases v.len(),
{
    if v.len() == 0 {
        0
    } else {
        count_kind(v.drop_last(), kind) + if v.last().change_type == kind {
            1nat
        } else {
            0nat
        }
    }
}

proof fn lemma_count_two_kinds(v: Seq<ChangeView>, a: Seq<char>, b: Seq<char>)
    requires
        a != b,
    ensures
        count_kind(v, a) + count_kind(v, b) <= v.len(),
    decreases v.len(),
{
    if v.len() > 0 {
        lemma_count_two_kinds(v.drop_last(), a, b);
    }
}

/// The log of a scan that found the changes `v`: completed, nothing moved,
/// no error, every change counted, and the added, modified (a conflict
/// counted as modified) and deleted ones counted by kind.
pub open spec fn scan_log(v: Seq<ChangeView>) -> LogUpdateView {
    LogUpdateView {
        status: "completed"@,
        total_files: v.len() as i64,
        transferred_bytes: 0,
        added_count: count_kind(v, "added"@) as i64,
        modified_count: (count_kind(v, "modified"@) + count_kind(v, "conflict"@)) as i64,
        deleted_count: count_kind(v, "deleted"@) as i64,
        error_count: 0,
        log_path: None,
    }
}

/// The log of a scan that found `changes`, with its counts taken from the
/// changes themselves.
pub fn scan_summary(changes: &Vec<NewSyncChange>) -> (r: LogUpdate)
    requires
        changes@.len() <= i64::MAX,
    ensures
        r@ == scan_log(change_views(changes@)),
{
    let ghost v = change_views(changes@);
    proof {
        reveal_strlit("modified");
        reveal_strlit("conflict");
        assert("modified"@[0] != "conflict"@[0]);
        assert(v.take(0) =~= Seq::<ChangeView>::empty());
    }
    let n = changes.len();
    let mut added: i64 = 0;
    let mut modified: i64 = 0;
    let mut conflict: i64 = 0;
    let mut deleted: i64 = 0;
    let mut i: usize = 0;
    while i < n
        invariant
            n == changes@.len(),
            n <= i64::MAX,
            i <= n,
            v == change_views(changes@),
            "modified"@ != "conflict"@,
            added == count_kind(v.take(i as int), "added"@),
            modified == count_kind(v.take(i as int), "modified"@),
            conflict == count_kind(v.take(i as int), "conflict"@),
            deleted == count_kind(v.take(i as int), "deleted"@),
            modified + conflict <= i,
            added <= i,
            deleted <= i,
        decreases n - i,
    {
        proof {
            assert(v.take(i + 1).drop_last() =~= v.take(i as int));
            assert(v.take(i + 1).last() == changes@[i as int]@);
            lemma_count_two_kinds(v.take(i + 1), "modified"@, "conflict"@);
        }
        let kind = changes[i].change_type.as_str();
        if text_eq(kind, "added") {
            added = added + 1;
        }
        if text_eq(kind, "modified") {
            modified = modified + 1;
        }
        if text_eq(kind, "conflict") {
            conflict = conflict + 1;
        }
        if text_eq(kind, "deleted") {
            deleted = deleted + 1;
        }
        i = i + 1;
    }
    proof {
        assert(v.take(n as int) =~= v);
    }
    scan_log_update(added, modified, deleted, conflict, n as i64)
}

/// A scan of the source listing `src` against the destination listing
/// `dst` in direction `dir`: the changes it finds, tagged with `log_id`,
/// and the log written for it, which counts exactly those changes (the
/// files only the source lists as added, those only the destination lists
/// as deleted, those both list that differ as modified, conflicts
/// included, all of them in total). Refused with `"Too many changes"` where
/// their number does not fit the log's counters.
pub fn scan_outcome(dir: Direction, log_id: i64, src: &FileMap, dst: &FileMap) -> (r: Result<
    (Vec<NewSyncChange>, LogUpdate),
    String,
>)
    requires
        src.wf(),
        dst.wf(),
    ensures
        r is Err <==> scan_changes(dir, log_id, *src, *dst).len() > i64::MAX,
        r is Err ==> r->Err_0@ == "Too many changes"@,
        r is Ok ==> {
            let v = scan_changes(dir, log_id, *src, *dst);
            let log = r->Ok_0.1@;
            &&& change_views(r->Ok_0.0@) == v
            &&& log == scan_log(v)
            &&& log.total_files == v.len()
            &&& log.added_count == added_changes(dir, log_id, src.pairs(), dst@).len()
            &&& log.deleted_count == deleted_changes(dir, log_id, dst.pairs(), src@).len()
            &&& log.modified_count == modified_changes(dir, log_id, src.pairs(), dst@).len()
            &&& log.status == "completed"@ && log.transferred_bytes == 0 && log.error_count == 0
        },
{
    let changes = compute_changes(dir, log_id, src, dst);
    assert(change_views(changes@).len() == changes@.len());
    if changes.len() as u64 > 9_223_372_036_854_775_807u64 {
        return Err("Too many changes".to_owned());
    }
    let log = scan_summary(&changes);
    proof {
        law_scan_log_counts(dir, log_id, *src, *dst);
    }
    Ok((changes, log))
}

/// The log that a run or a scan of `task` opens when it starts at
/// `started_at`: running, in the task's direction.
pub fn running_log(task: &Task, started_at: String) -> (r: NewSyncLog)
    ensures
        r.task_id == task.id,
        r.direction@ == task.direction@,
        r.status@ == "running"@,
        r.started_at@ == started_at@,
{
    NewSyncLog {
        task_id: task.id,
        direction: task.direction.clone(),
        status: "running".to_owned(),
        started_at,
    }
}

/// What happened last in a sync run.
pub enum RunEvent {
    /// The job was started under this id.
    Started(i64),
    /// The job could not be started.
    StartFailed,
    /// The status of the job `jobid` was read.
    Status(i64, RcValue),
    /// The status of the job could not be read.
    StatusFailed,
    /// The user cancelled the run.
    Cancelled,
}

/// What a sync run does next.
pub enum RunAction {
    /// Wait, then read the status of the job; the task syncs, waiting on it.
    Poll(i64),
    /// End the run: the task enters `state`, the log is written, and the
    /// task's last sync time is set where `touch_last_sync` holds.
    Finish { state: TaskState, log: LogUpdate, touch_last_sync: bool },
    /// End a cancelled run: stop `stop_job` where there is one, write the
    /// log, and leave the task's run state as the cancel left it.
    Cancel { stop_job: Option<i64>, log: LogUpdate },
}

/// What a sync run does after `event`: a started job is polled until its
/// status says it finished; a finished job ends the run completed or failed
/// as it reports, with its statistics logged and the task's last sync time
/// set; a job that could not be started or watched ends the run failed with
/// one error logged; a cancelled run ends logged as cancelled, stopping no
/// job (the cancel stopped it) and leaving the run state to the cancel.
pub open spec fn acts_on(event: RunEvent, r: RunAction) -> bool {
    match event {
        RunEvent::Started(j) => r == RunAction::Poll(j),
        RunEvent::StartFailed => r matches RunAction::Finish { state, log, touch_last_sync } && state
            == TaskState::Failed && log@ == failure_log() && !touch_last_sync,
        RunEvent::StatusFailed => r matches RunAction::Finish { state, log, touch_last_sync } && state
            == TaskState::Failed && log@ == failure_log() && !touch_last_sync,
        RunEvent::Cancelled => r matches RunAction::Cancel { stop_job, log } && stop_job is None
            && log@ == cancel_log(),
        RunEvent::Status(j, status) => if status_finished(status) {
            r matches RunAction::Finish { state, log, touch_last_sync } && state == (if status_outcome(
                status,
            ).success {
                TaskState::Completed
            } else {
                TaskState::Failed
            }) && log@ == outcome_log(status_outcome(status)) && touch_last_sync
        } else {
            r == RunAction::Poll(j)
        },
    }
}

/// The next step of a sync run after `event`, as [`acts_on`] describes it.
pub fn next_run_action(event: &RunEvent) -> (r: RunAction)
    ensures
        acts_on(*event, r),
{
    match event {
        RunEvent::Started(j) => RunAction::Poll(*j),
        RunEvent::StartFailed => RunAction::Finish {
            state: TaskState::Failed,
            log: failure_log_update(),
            touch_last_sync: false,
        },
        RunEvent::StatusFailed => RunAction::Finish {
            state: TaskState::Failed,
            log: failure_log_update(),
            touch_last_sync: false,
        },
        RunEvent::Cancelled => RunAction::Cancel { stop_job: None, log: cancel_log_update() },
        RunEvent::Status(j, status) => match job_outcome(status) {
            None => RunAction::Poll(*j),
            Some(o) => RunAction::Finish {
                state: if o.success {
                    TaskState::Completed
                } else {
                    TaskState::Failed
                },
                log: outcome_log_update(&o),
                touch_last_sync: true,
            },
        },
    }
}

/// Whether `event` finds the run of `task_id` cancelled on `board`, and
/// which job is then to be stopped: a job that started after the task was
/// reset (the board no longer shows it syncing) is stopped; a job whose
/// status comes in after the board stopped waiting on it was stopped by the
/// cancel; a cancel event stops nothing more. `None` where the run goes on.
pub open spec fn step_cancels(board: Map<i64, RuntimeEntry>, task_id: i64, event: RunEvent) -> Option<
    Option<i64>,
> {
    match event {
        RunEvent::Started(j) => if run_is_cancelled(board, task_id, None) {
            Some(Some(j))
        } else {
            None
        },
        RunEvent::Status(j, _) => if run_is_cancelled(board, task_id, Some(j)) {
            Some(None)
        } else {
            None
        },
        RunEvent::Cancelled => Some(None),
        _ => None,
    }
}

impl RuntimeBoard {
    /// The next step of the run of `task_id` after `event`, as the board
    /// stands: a run that the board shows cancelled ends logged as
    /// cancelled, stopping the job that [`step_cancels`] names; any other
    /// goes on as [`next_run_action`] says.
    pub fn run_step(&self, task_id: i64, event: &RunEvent) -> (r: RunAction)
        ensures
            match step_cancels(self@, task_id, *event) {
                Some(stop) => r matches RunAction::Cancel { stop_job, log } && stop_job == stop
                    && log@ == cancel_log(),
                None => acts_on(*event, r),
            },
    {
        match event {
            RunEvent::Started(j) => {
                if self.run_cancelled(task_id, None) {
                    return RunAction::Cancel { stop_job: Some(*j), log: cancel_log_update() };
                }
            },
            RunEvent::Status(j, _) => {
                if self.run_cancelled(task_id, Some(*j)) {
                    return RunAction::Cancel { stop_job: None, log: cancel_log_update() };
                }
            },
            _ => {},
        }
        next_run_action(event)
    }
}

/// Cancelling a run that waits on job `j` stops that job and resets the
/// task to idle. From then on the run ends cancelled, logged with
/// [`cancel_log`], whatever status of `j` comes in, and a job `k` that
/// started only after the cancel is stopped too; the task stays idle. While
/// the run is not cancelled, a status of `j` does not end it as cancelled.
pub proof fn law_cancel_ends_run(
    board: Map<i64, RuntimeEntry>,
    task_id: i64,
    j: i64,
    k: i64,
    status: RcValue,
)
    ensures
        cancel_decision(board.insert(task_id, RuntimeEntry { status: TaskState::Syncing, job_id: Some(j) }), task_id)
            == CancelStep::StopJobThenReset(j),
        step_cancels(
            board.insert(task_id, RuntimeEntry { status: TaskState::Syncing, job_id: Some(j) }),
            task_id,
            RunEvent::Status(j, status),
        ) is None,
        run_is_cancelled(
            board.insert(task_id, RuntimeEntry { status: TaskState::Syncing, job_id: Some(j) }).insert(
                task_id,
                RuntimeEntry { status: TaskState::Idle, job_id: None },
            ),
            task_id,
            Some(j),
        ),
        step_cancels(
            board.insert(task_id, RuntimeEntry { status: TaskState::Syncing, job_id: Some(j) }).insert(
                task_id,
                RuntimeEntry { status: TaskState::Idle, job_id: None },
            ),
            task_id,
            RunEvent::Status(j, status),
        ) == Some(None::<i64>),
        step_cancels(
            board.insert(task_id, RuntimeEntry { status: TaskState::Syncing, job_id: Some(j) }).insert(
                task_id,
                RuntimeEntry { status: TaskState::Idle, job_id: None },
            ),
            task_id,
            RunEvent::Started(k),
        ) == Some(Some(k)),
        board.insert(task_id, RuntimeEntry { status: TaskState::Syncing, job_id: Some(j) }).insert(
            task_id,
            RuntimeEntry { status: TaskState::Idle, job_id: None },
        )[task_id].status == TaskState::Idle,
{
}

/// A job status reply says the job finished exactly when its `finished`
/// member is the boolean `true`.
pub proof fn law_finished_means_finished_true(status: RcValue)
    ensures
        status_finished(status) <==> field(status, "finished"@) == Some(RcValue::Bool(true)),
{
}

/// What a finished job reports is read from its reply `status`, whose
/// statistics `st` are its `stats` member (the reply itself where it has
/// none), each count under the first of its names that holds an integer:
/// the job succeeded exactly when `success` is the boolean `true`; the
/// bytes are the statistics' `totalBytes`, else their `bytes`, else the
/// reply's own `totalBytes`, else 0; the errors the statistics'
/// `totalErrorCount`, else their `errors`, else their `totalErrors`, else
/// the reply's own `totalErrorCount`, else 0; and the files the larger of
/// the statistics' `totalTransfers` (else their `transfers`, else the
/// reply's own `totalTransfers`, else 0) and the number of entries of the
/// reply's `transferred` array.
pub proof fn law_job_outcome_reads_reply(status: RcValue, st: RcValue)
    requires
        st == (if field(status, "stats"@) is Some {
            field(status, "stats"@)->0
        } else {
            status
        }),
    ensures
        status_outcome(status).success <==> field(status, "success"@) == Some(RcValue::Bool(true)),
        status_outcome(status).transferred_bytes == (if int_of(field(st, "totalBytes"@)) is Some {
            int_of(field(st, "totalBytes"@))->0
        } else if int_of(field(st, "bytes"@)) is Some {
            int_of(field(st, "bytes"@))->0
        } else if int_of(field(status, "totalBytes"@)) is Some {
            int_of(field(status, "totalBytes"@))->0
        } else {
            0
        }),
        status_outcome(status).error_count == (if int_of(field(st, "totalErrorCount"@)) is Some {
            int_of(field(st, "totalErrorCount"@))->0
        } else if int_of(field(st, "errors"@)) is Some {
            int_of(field(st, "errors"@))->0
        } else if int_of(field(st, "totalErrors"@)) is Some {
            int_of(field(st, "totalErrors"@))->0
        } else if int_of(field(status, "totalErrorCount"@)) is Some {
            int_of(field(status, "totalErrorCount"@))->0
        } else {
            0
        }),
        ({
            let named: i64 = if int_of(field(st, "totalTransfers"@)) is Some {
                int_of(field(st, "totalTransfers"@))->0
            } else if int_of(field(st, "transfers"@)) is Some {
                int_of(field(st, "transfers"@))->0
            } else if int_of(field(status, "totalTransfers"@)) is Some {
                int_of(field(status, "totalTransfers"@))->0
            } else {
                0
            };
            let listed: i64 = (match field(status, "transferred"@) {
                Some(RcValue::Array(a)) => a@.len(),
                _ => 0,
            }) as i64;
            &&& status_outcome(status).total_files >= named
            &&& status_outcome(status).total_files >= listed
            &&& status_outcome(status).total_files == named || status_outcome(status).total_files
                == listed
        }),
{
}

/// The log of a run whose job finished records what the job reported:
/// its files (all counted as added), its bytes and its errors, whether it
/// succeeded or not; completed where it succeeded, failed otherwise.
pub proof fn law_outcome_log_records_job(o: JobOutcome)
    ensures
        outcome_log(o).total_files == o.total_files,
        outcome_log(o).transferred_bytes == o.transferred_bytes,
        outcome_log(o).error_count == o.error_count,
        outcome_log(o).added_count == o.total_files,
        outcome_log(o).modified_count == 0,
        outcome_log(o).deleted_count == 0,
        outcome_log(o).log_path is None,
        o.success ==> outcome_log(o).status == "completed"@,
        !o.success ==> outcome_log(o).status == "failed"@,
{
}

/// A run step on the status of a finished job ends the run, sets the last
/// sync time, and logs what the job reported: its files, bytes and errors;
/// it ends completed, logged "completed", exactly where the job succeeded,
/// and failed, logged "failed", otherwise.
pub proof fn law_finished_job_is_logged(j: i64, status: RcValue, r: RunAction)
    requires
        acts_on(RunEvent::Status(j, status), r),
        field(status, "finished"@) == Some(RcValue::Bool(true)),
    ensures
        r matches RunAction::Finish { state, log, touch_last_sync } && touch_last_sync
            && log@.total_files == status_outcome(status).total_files
            && log@.transferred_bytes == status_outcome(status).transferred_bytes
            && log@.error_count == status_outcome(status).error_count
            && (status_outcome(status).success ==> state == TaskState::Completed && log@.status
            == "completed"@) && (!status_outcome(status).success ==> state == TaskState::Failed
            && log@.status == "failed"@),
{
}

/// A run whose job could not be started or watched ends failed, logged
/// "failed" with one error and nothing moved, and does not set the last
/// sync time; a cancelled run ends logged "cancelled" with nothing counted,
/// stopping no further job.
pub proof fn law_unfinished_runs_are_logged(r1: RunAction, r2: RunAction, r3: RunAction)
    requires
        acts_on(RunEvent::StartFailed, r1),
        acts_on(RunEvent::StatusFailed, r2),
        acts_on(RunEvent::Cancelled, r3),
    ensures
        r1 matches RunAction::Finish { state, log, touch_last_sync } && state == TaskState::Failed
            && !touch_last_sync && log@.status == "failed"@ && log@.error_count == 1
            && log@.total_files == 0 && log@.transferred_bytes == 0,
        r2 matches RunAction::Finish { state, log, touch_last_sync } && state == TaskState::Failed
            && !touch_last_sync && log@.status == "failed"@ && log@.error_count == 1
            && log@.total_files == 0 && log@.transferred_bytes == 0,
        r3 matches RunAction::Cancel { stop_job, log } && stop_job is None && log@.status
            == "cancelled"@ && log@.error_count == 0 && log@.total_files == 0
            && log@.transferred_bytes == 0,
{
}

/// The job of a task starts from the right end: an upload syncs from the
/// local directory to `<remote>:<path>`, a download the other way, and a
/// bisync reconciles the local directory (first) with `<remote>:<path>`
/// (second) without resync and under the task's conflict policy; every job
/// runs in the background, and carries the task's filters exactly where it
/// has some.
pub proof fn law_task_job_members(task: Task)
    ensures
        direction_of(task.direction@) == Some(Direction::Upload) ==> {
            &&& base_members(task)[0] == ("srcFs"@, Scalar::Text(task.local_path@))
            &&& base_members(task)[1] == ("dstFs"@, Scalar::Text(
                task.remote_name@ + seq![':'] + task.remote_path@,
            ))
            &&& base_members(task)[2] == ("_async"@, Scalar::Flag(true))
            &&& base_members(task).len() == (if task.filters is Some { 4int } else { 3int })
        },
        direction_of(task.direction@) == Some(Direction::Download) ==> {
            &&& base_members(task)[0] == ("srcFs"@, Scalar::Text(
                task.remote_name@ + seq![':'] + task.remote_path@,
            ))
            &&& base_members(task)[1] == ("dstFs"@, Scalar::Text(task.local_path@))
            &&& base_members(task)[2] == ("_async"@, Scalar::Flag(true))
            &&& base_members(task).len() == (if task.filters is Some { 4int } else { 3int })
        },
        direction_of(task.direction@) == Some(Direction::Bisync) ==> {
            &&& base_members(task)[0] == ("path1"@, Scalar::Text(task.local_path@))
            &&& base_members(task)[1] == ("path2"@, Scalar::Text(
                task.remote_name@ + seq![':'] + task.remote_path@,
            ))
            &&& base_members(task)[2] == ("resync"@, Scalar::Flag(false))
            &&& base_members(task)[3] == ("conflictResolve"@, Scalar::Text(task.conflict_policy@))
            &&& base_members(task)[4] == ("_async"@, Scalar::Flag(true))
            &&& base_members(task).len() == (if task.filters is Some { 6int } else { 5int })
        },
        task.filters is Some && direction_of(task.direction@) is Some ==> base_members(task).last()
            == ("filters"@, Scalar::Nested),
{
}

/// Each state is reported by its own text.
pub proof fn law_state_texts()
    ensures
        state_text(TaskState::Idle) == "idle"@,
        state_text(TaskState::Scanning) == "scanning"@,
        state_text(TaskState::Syncing) == "syncing"@,
        state_text(TaskState::Completed) == "completed"@,
        state_text(TaskState::Failed) == "failed"@,
{
}

} // verus!
